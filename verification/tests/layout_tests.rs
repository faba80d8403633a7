use zone_presets::model::{Action, GroupingSettings, Output, Preset, Volume, VolumeType};
use zone_presets::layout::{
    make_layout, Choice, ChoiceValue, LayoutItem, Widget,
};

fn output(id: &str, name: &str, group_with: &[&str], min: i32, max: i32, value: i32) -> Output {
    Output {
        output_id: id.to_string(),
        display_name: name.to_string(),
        can_group_with_output_ids: group_with.iter().map(|s| s.to_string()).collect(),
        volume: Volume { min, max, value },
    }
}

fn editing_settings(volume_level: &str) -> GroupingSettings {
    let mut settings = GroupingSettings::default();
    settings.presets.push(Preset {
        name: "Pair".to_string(),
        output_ids: vec!["A".to_string(), "B".to_string()],
        volume_type: VolumeType::Preset,
        volumes: Vec::new(),
    });
    settings.selected = Some(0);
    settings.action = Action::Edit;
    settings.name = "Pair".to_string();
    settings.primary_output_id = Some("A".to_string());
    settings.output_ids = vec!["A".to_string(), "B".to_string()];
    settings.volume_type = VolumeType::Preset;
    settings.volume_output_id = Some("A".to_string());
    settings.volume_level = volume_level.to_string();
    settings
}

fn two_outputs() -> Vec<Output> {
    vec![
        output("A", "Living Room", &["A", "B"], 0, 100, 30),
        output("B", "Kitchen", &["A", "B"], 0, 100, 40),
    ]
}

fn find_integer(layout: &zone_presets::layout::Layout) -> zone_presets::layout::IntegerInput {
    for item in &layout.widgets {
        if let LayoutItem::Group(g) = item {
            for w in &g.items {
                if let Widget::Integer(n) = w {
                    return zone_presets::layout::IntegerInput {
                        title: n.title.clone(),
                        subtitle: n.subtitle.clone(),
                        min: n.min,
                        max: n.max,
                        setting: n.setting.clone(),
                        error: n.error.clone(),
                    };
                }
            }
        }
    }
    panic!("no integer widget in layout");
}

#[test]
fn out_of_range_volume_reports_exact_error() {
    let layout = make_layout(editing_settings("150"), &two_outputs());
    assert!(layout.has_error);
    let n = find_integer(&layout);
    assert_eq!(n.error, Some("Volume level should be between 0 and 100".to_string()));
    assert_eq!(n.min, 0);
    assert_eq!(n.max, 100);
}

#[test]
fn in_range_volume_has_no_error() {
    let layout = make_layout(editing_settings("50"), &two_outputs());
    assert!(!layout.has_error);
    let n = find_integer(&layout);
    assert_eq!(n.error, None);
}

#[test]
fn unparsable_volume_text_has_no_error() {
    let layout = make_layout(editing_settings("abc"), &two_outputs());
    assert!(!layout.has_error);
    let n = find_integer(&layout);
    assert_eq!(n.error, None);
}

fn choice_pairs(values: &[Choice]) -> Vec<(String, Option<usize>)> {
    values
        .iter()
        .map(|c| {
            let v = match &c.value {
                ChoiceValue::Null => None,
                ChoiceValue::Index(i) => Some(*i),
                ChoiceValue::Id(_) => panic!("unexpected id value"),
            };
            (c.title.clone(), v)
        })
        .collect()
}

#[test]
fn preset_selector_lists_named_presets_and_new_entry() {
    let mut settings = GroupingSettings::default();
    settings.presets.push(Preset {
        name: "First".to_string(),
        output_ids: vec!["A".to_string()],
        volume_type: VolumeType::Untouched,
        volumes: Vec::new(),
    });
    settings.presets.push(Preset {
        name: String::new(),
        output_ids: vec!["B".to_string()],
        volume_type: VolumeType::Untouched,
        volumes: Vec::new(),
    });
    settings.presets.push(Preset {
        name: "Third".to_string(),
        output_ids: vec!["C".to_string()],
        volume_type: VolumeType::Untouched,
        volumes: Vec::new(),
    });
    let layout = make_layout(settings, &Vec::new());
    assert_eq!(layout.widgets.len(), 1);
    let LayoutItem::Widget(Widget::Dropdown(d)) = &layout.widgets[0] else {
        panic!("expected the preset selector");
    };
    assert_eq!(d.title, "Preset");
    assert_eq!(d.setting, "selected");
    assert_eq!(
        choice_pairs(&d.values),
        vec![
            ("(select preset)".to_string(), None),
            ("First".to_string(), Some(0)),
            ("Third".to_string(), Some(2)),
            ("New Preset".to_string(), Some(3)),
        ]
    );
}

#[test]
fn action_selector_carries_wire_codes() {
    let mut settings = editing_settings("50");
    settings.action = Action::Activate;
    let layout = make_layout(settings, &two_outputs());
    let LayoutItem::Widget(Widget::Dropdown(d)) = &layout.widgets[1] else {
        panic!("expected the action selector");
    };
    assert_eq!(d.title, "Action");
    assert_eq!(
        choice_pairs(&d.values),
        vec![
            ("(select action)".to_string(), None),
            ("Activate".to_string(), Some(1)),
            ("Deactivate".to_string(), Some(2)),
            ("Edit".to_string(), Some(0)),
            ("Delete".to_string(), Some(3)),
        ]
    );
}

#[test]
fn new_preset_slot_has_no_action_selector() {
    let mut settings = GroupingSettings::default();
    settings.selected = Some(0);
    settings.action = Action::Edit;
    let layout = make_layout(settings, &Vec::new());
    assert_eq!(layout.widgets.len(), 2);
    assert!(matches!(&layout.widgets[0], LayoutItem::Widget(Widget::Dropdown(_))));
    let LayoutItem::Group(g) = &layout.widgets[1] else {
        panic!("expected the editor group");
    };
    assert_eq!(g.title, "Preset Editor");
    assert!(g.collapsable);
    assert_eq!(g.items.len(), 1);
    assert!(matches!(&g.items[0], Widget::Textbox(t) if t.title == "Name"));
}

#[test]
fn editor_reveals_fields_progressively() {
    let layout = make_layout(editing_settings("50"), &two_outputs());
    // preset selector, action selector, editor group, summary label
    assert_eq!(layout.widgets.len(), 4);
    let LayoutItem::Group(g) = &layout.widgets[2] else {
        panic!("expected the editor group");
    };
    let titles: Vec<String> = g
        .items
        .iter()
        .map(|w| match w {
            Widget::Textbox(t) => t.title.clone(),
            Widget::Dropdown(d) => d.title.clone(),
            Widget::Integer(n) => n.title.clone(),
            Widget::Label(l) => l.title.clone(),
        })
        .collect();
    assert_eq!(
        titles,
        vec![
            "Name".to_string(),
            "Primary Output".to_string(),
            "Group With".to_string(),
            "Volume Control".to_string(),
            "Output".to_string(),
            "Volume Level".to_string(),
        ]
    );
}

#[test]
fn group_with_excludes_the_primary() {
    let layout = make_layout(editing_settings("50"), &two_outputs());
    let LayoutItem::Group(g) = &layout.widgets[2] else {
        panic!("expected the editor group");
    };
    let Widget::Dropdown(d) = &g.items[2] else {
        panic!("expected the group-with selector");
    };
    assert_eq!(d.setting, "add");
    let ids: Vec<Option<String>> = d
        .values
        .iter()
        .map(|c| match &c.value {
            ChoiceValue::Id(s) => Some(s.clone()),
            ChoiceValue::Null => None,
            ChoiceValue::Index(_) => panic!("unexpected index value"),
        })
        .collect();
    assert_eq!(ids, vec![None, Some("B".to_string())]);
}

#[test]
fn summary_label_lists_grouped_members() {
    let layout = make_layout(editing_settings("50"), &two_outputs());
    let LayoutItem::Widget(Widget::Label(l)) = &layout.widgets[3] else {
        panic!("expected the summary label");
    };
    assert_eq!(l.title, "Living Room");
    assert_eq!(l.subtitle, Some("Grouped with:\nKitchen".to_string()));
}
