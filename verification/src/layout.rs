//! Layout builder: projects the settings state and the output cache into
//! the hierarchical form description consumed by the settings UI, with
//! inline validation of the volume level field.

use vstd::prelude::*;
use crate::model::{
    GroupingSettings, Output, OutputV, SettingsV, Action, VolumeType, outputs_has, outputs_unique,
    output_index, output_lookup, find_output,
};
use crate::text::{int_text, int_text_val, int_text_valid, parse_i32, i32_to_string};

verus! {

/// The value carried by one dropdown entry: the null placeholder, a
/// numeric code or preset index, or an output id.
pub enum ChoiceValue {
    Null,
    Index(usize),
    Id(String),
}

#[verifier::ext_equal]
pub enum ChoiceValueV {
    Null,
    Index(usize),
    Id(Seq<char>),
}

impl View for ChoiceValue {
    type V = ChoiceValueV;

    open spec fn view(&self) -> ChoiceValueV {
        match self {
            ChoiceValue::Null => ChoiceValueV::Null,
            ChoiceValue::Index(i) => ChoiceValueV::Index(*i),
            ChoiceValue::Id(s) => ChoiceValueV::Id(s@),
        }
    }
}

/// One dropdown entry: a title and the value submitted when chosen.
pub struct Choice {
    pub title: String,
    pub value: ChoiceValue,
}

#[verifier::ext_equal]
pub struct ChoiceV {
    pub title: Seq<char>,
    pub value: ChoiceValueV,
}

impl View for Choice {
    type V = ChoiceV;

    open spec fn view(&self) -> ChoiceV {
        ChoiceV { title: self.title@, value: self.value@ }
    }
}

impl DeepView for Choice {
    type V = ChoiceV;

    open spec fn deep_view(&self) -> ChoiceV {
        self.view()
    }
}

pub struct Dropdown {
    pub title: String,
    pub subtitle: Option<String>,
    pub values: Vec<Choice>,
    pub setting: String,
}

#[verifier::ext_equal]
pub struct DropdownV {
    pub title: Seq<char>,
    pub subtitle: Option<Seq<char>>,
    pub values: Seq<ChoiceV>,
    pub setting: Seq<char>,
}

impl View for Dropdown {
    type V = DropdownV;

    open spec fn view(&self) -> DropdownV {
        DropdownV {
            title: self.title@,
            subtitle: self.subtitle.deep_view(),
            values: self.values.deep_view(),
            setting: self.setting@,
        }
    }
}

pub struct Textbox {
    pub title: String,
    pub subtitle: Option<String>,
    pub setting: String,
}

#[verifier::ext_equal]
pub struct TextboxV {
    pub title: Seq<char>,
    pub subtitle: Option<Seq<char>>,
    pub setting: Seq<char>,
}

impl View for Textbox {
    type V = TextboxV;

    open spec fn view(&self) -> TextboxV {
        TextboxV {
            title: self.title@,
            subtitle: self.subtitle.deep_view(),
            setting: self.setting@,
        }
    }
}

/// An integer entry field with live bounds and an optional inline error.
pub struct IntegerInput {
    pub title: String,
    pub subtitle: Option<String>,
    pub min: i32,
    pub max: i32,
    pub setting: String,
    pub error: Option<String>,
}

#[verifier::ext_equal]
pub struct IntegerInputV {
    pub title: Seq<char>,
    pub subtitle: Option<Seq<char>>,
    pub min: i32,
    pub max: i32,
    pub setting: Seq<char>,
    pub error: Option<Seq<char>>,
}

impl View for IntegerInput {
    type V = IntegerInputV;

    open spec fn view(&self) -> IntegerInputV {
        IntegerInputV {
            title: self.title@,
            subtitle: self.subtitle.deep_view(),
            min: self.min,
            max: self.max,
            setting: self.setting@,
            error: self.error.deep_view(),
        }
    }
}

/// A read-only text widget.
pub struct LabelText {
    pub title: String,
    pub subtitle: Option<String>,
}

#[verifier::ext_equal]
pub struct LabelTextV {
    pub title: Seq<char>,
    pub subtitle: Option<Seq<char>>,
}

impl View for LabelText {
    type V = LabelTextV;

    open spec fn view(&self) -> LabelTextV {
        LabelTextV { title: self.title@, subtitle: self.subtitle.deep_view() }
    }
}

/// A flat widget of the form.
pub enum Widget {
    Dropdown(Dropdown),
    Textbox(Textbox),
    Integer(IntegerInput),
    Label(LabelText),
}

#[verifier::ext_equal]
pub enum WidgetV {
    Dropdown(DropdownV),
    Textbox(TextboxV),
    Integer(IntegerInputV),
    Label(LabelTextV),
}

impl View for Widget {
    type V = WidgetV;

    open spec fn view(&self) -> WidgetV {
        match self {
            Widget::Dropdown(d) => WidgetV::Dropdown(d@),
            Widget::Textbox(t) => WidgetV::Textbox(t@),
            Widget::Integer(n) => WidgetV::Integer(n@),
            Widget::Label(l) => WidgetV::Label(l@),
        }
    }
}

impl DeepView for Widget {
    type V = WidgetV;

    open spec fn deep_view(&self) -> WidgetV {
        self.view()
    }
}

/// A collapsible group of widgets.
pub struct WidgetGroup {
    pub title: String,
    pub subtitle: Option<String>,
    pub collapsable: bool,
    pub items: Vec<Widget>,
}

#[verifier::ext_equal]
pub struct WidgetGroupV {
    pub title: Seq<char>,
    pub subtitle: Option<Seq<char>>,
    pub collapsable: bool,
    pub items: Seq<WidgetV>,
}

impl View for WidgetGroup {
    type V = WidgetGroupV;

    open spec fn view(&self) -> WidgetGroupV {
        WidgetGroupV {
            title: self.title@,
            subtitle: self.subtitle.deep_view(),
            collapsable: self.collapsable,
            items: self.items.deep_view(),
        }
    }
}

/// One top-level entry of the rendered form.
pub enum LayoutItem {
    Widget(Widget),
    Group(WidgetGroup),
}

#[verifier::ext_equal]
pub enum LayoutItemV {
    Widget(WidgetV),
    Group(WidgetGroupV),
}

impl View for LayoutItem {
    type V = LayoutItemV;

    open spec fn view(&self) -> LayoutItemV {
        match self {
            LayoutItem::Widget(w) => LayoutItemV::Widget(w@),
            LayoutItem::Group(g) => LayoutItemV::Group(g@),
        }
    }
}

impl DeepView for LayoutItem {
    type V = LayoutItemV;

    open spec fn deep_view(&self) -> LayoutItemV {
        self.view()
    }
}

/// The rendered form: the state it was rendered from, the widget tree, and
/// whether any field carries a validation error.
pub struct Layout {
    pub settings: GroupingSettings,
    pub widgets: Vec<LayoutItem>,
    pub has_error: bool,
}

/// The preset selector entries contributed by presets `0 .. i` with a
/// non-empty name, each valued with its index.
pub open spec fn preset_name_choices(presets: Seq<crate::model::PresetV>, i: int) -> Seq<ChoiceV>
    decreases i,
{
    if i <= 0 {
        Seq::empty()
    } else {
        let rest = preset_name_choices(presets, i - 1);
        if presets[i - 1].name.len() > 0 {
            rest.push(
                ChoiceV { title: presets[i - 1].name, value: ChoiceValueV::Index((i - 1) as usize) },
            )
        } else {
            rest
        }
    }
}

/// The full preset selector: a null placeholder, the named presets, and
/// the trailing "New Preset" entry valued with the list length.
pub open spec fn preset_choices(s: SettingsV) -> Seq<ChoiceV> {
    seq![ChoiceV { title: "(select preset)"@, value: ChoiceValueV::Null }] + preset_name_choices(
        s.presets,
        s.presets.len() as int,
    ) + seq![
        ChoiceV { title: "New Preset"@, value: ChoiceValueV::Index(s.presets.len() as usize) },
    ]
}

pub open spec fn preset_dropdown(s: SettingsV) -> DropdownV {
    DropdownV { title: "Preset"@, subtitle: None, values: preset_choices(s), setting: "selected"@ }
}

/// The action selector, with the wire-level codes of the four actions.
pub open spec fn action_dropdown() -> DropdownV {
    DropdownV {
        title: "Action"@,
        subtitle: None,
        values: seq![
            ChoiceV { title: "(select action)"@, value: ChoiceValueV::Null },
            ChoiceV { title: "Activate"@, value: ChoiceValueV::Index(1) },
            ChoiceV { title: "Deactivate"@, value: ChoiceValueV::Index(2) },
            ChoiceV { title: "Edit"@, value: ChoiceValueV::Index(0) },
            ChoiceV { title: "Delete"@, value: ChoiceValueV::Index(3) },
        ],
        setting: "action"@,
    }
}

/// One entry per cached output, in cache order.
pub open spec fn output_choices(outs: Seq<OutputV>, i: int) -> Seq<ChoiceV>
    decreases i,
{
    if i <= 0 {
        Seq::empty()
    } else {
        output_choices(outs, i - 1).push(
            ChoiceV {
                title: outs[i - 1].display_name,
                value: ChoiceValueV::Id(outs[i - 1].output_id),
            },
        )
    }
}

pub open spec fn primary_dropdown(outs: Seq<OutputV>) -> DropdownV {
    DropdownV {
        title: "Primary Output"@,
        subtitle: None,
        values: seq![ChoiceV { title: "(select output)"@, value: ChoiceValueV::Null }]
            + output_choices(outs, outs.len() as int),
        setting: "primary_output_id"@,
    }
}

/// The groupable outputs of the primary, excluding the primary itself.
pub open spec fn group_with_choices(outs: Seq<OutputV>, primary: OutputV, i: int) -> Seq<ChoiceV>
    decreases i,
{
    if i <= 0 {
        Seq::empty()
    } else {
        let rest = group_with_choices(outs, primary, i - 1);
        let id = primary.can_group_with_output_ids[i - 1];
        if id == primary.output_id {
            rest
        } else {
            rest.push(
                ChoiceV {
                    title: output_lookup(outs, id)->0.display_name,
                    value: ChoiceValueV::Id(id),
                },
            )
        }
    }
}

pub open spec fn group_with_dropdown(outs: Seq<OutputV>, primary: OutputV) -> DropdownV {
    DropdownV {
        title: "Group With"@,
        subtitle: None,
        values: seq![ChoiceV { title: "(select output)"@, value: ChoiceValueV::Null }]
            + group_with_choices(outs, primary, primary.can_group_with_output_ids.len() as int),
        setting: "add"@,
    }
}

pub open spec fn volume_control_dropdown() -> DropdownV {
    DropdownV {
        title: "Volume Control"@,
        subtitle: None,
        values: seq![
            ChoiceV { title: "(select volume control)"@, value: ChoiceValueV::Null },
            ChoiceV { title: "Untouched"@, value: ChoiceValueV::Index(0) },
            ChoiceV { title: "Last Used"@, value: ChoiceValueV::Index(1) },
            ChoiceV { title: "Preset"@, value: ChoiceValueV::Index(2) },
        ],
        setting: "volume_type"@,
    }
}

/// One entry per member of the working output list.
pub open spec fn volume_output_choices(outs: Seq<OutputV>, ids: Seq<Seq<char>>, i: int) -> Seq<
    ChoiceV,
>
    decreases i,
{
    if i <= 0 {
        Seq::empty()
    } else {
        volume_output_choices(outs, ids, i - 1).push(
            ChoiceV {
                title: output_lookup(outs, ids[i - 1])->0.display_name,
                value: ChoiceValueV::Id(ids[i - 1]),
            },
        )
    }
}

pub open spec fn volume_output_dropdown(outs: Seq<OutputV>, ids: Seq<Seq<char>>) -> DropdownV {
    DropdownV {
        title: "Output"@,
        subtitle: None,
        values: seq![ChoiceV { title: "(select output)"@, value: ChoiceValueV::Null }]
            + volume_output_choices(outs, ids, ids.len() as int),
        setting: "volume_output_id"@,
    }
}

/// The entered level parses and lies outside the live bounds.
pub open spec fn volume_out_of_range(t: Seq<char>, min: i32, max: i32) -> bool {
    &&& int_text_valid(t)
    &&& i32::MIN <= int_text_val(t) <= i32::MAX
    &&& (int_text_val(t) < min || int_text_val(t) > max)
}

/// The inline error text for an out-of-range level.
pub open spec fn volume_error_text(min: i32, max: i32) -> Seq<char> {
    "Volume level should be between "@ + int_text(min as int) + " and "@ + int_text(max as int)
}

pub open spec fn volume_integer(s: SettingsV, o: OutputV) -> IntegerInputV {
    IntegerInputV {
        title: "Volume Level"@,
        subtitle: None,
        min: o.volume.min,
        max: o.volume.max,
        setting: "volume_level"@,
        error: if volume_out_of_range(s.volume_level, o.volume.min, o.volume.max) {
            Some(volume_error_text(o.volume.min, o.volume.max))
        } else {
            None
        },
    }
}

/// The widgets inside the "Preset Editor" group, revealed progressively:
/// the name field; once a name is present, the primary output selector;
/// once a cached primary is chosen, the group-with and volume-control
/// selectors; under the `Preset` policy, the volume output selector and,
/// once one is chosen, the bounded level field.
pub open spec fn editor_items(s: SettingsV, outs: Seq<OutputV>) -> Seq<WidgetV> {
    let base = seq![
        WidgetV::Textbox(TextboxV { title: "Name"@, subtitle: None, setting: "name"@ }),
    ];
    if s.name.len() > 0 {
        let b2 = base + seq![WidgetV::Dropdown(primary_dropdown(outs))];
        if s.primary_output_id is Some && outputs_has(outs, s.primary_output_id->0) {
            let primary = outs[output_index(outs, s.primary_output_id->0)];
            let b3 = b2 + seq![
                WidgetV::Dropdown(group_with_dropdown(outs, primary)),
                WidgetV::Dropdown(volume_control_dropdown()),
            ];
            if s.volume_type is Preset {
                let b4 = b3 + seq![WidgetV::Dropdown(volume_output_dropdown(outs, s.output_ids))];
                if s.volume_output_id is Some {
                    let chosen = outs[output_index(outs, s.volume_output_id->0)];
                    b4 + seq![WidgetV::Integer(volume_integer(s, chosen))]
                } else {
                    b4
                }
            } else {
                b3
            }
        } else {
            b2
        }
    } else {
        base
    }
}

pub open spec fn editor_group(s: SettingsV, outs: Seq<OutputV>) -> WidgetGroupV {
    WidgetGroupV {
        title: "Preset Editor"@,
        subtitle: None,
        collapsable: true,
        items: editor_items(s, outs),
    }
}

/// The summary label subtitle: "Grouped with:" followed by one line per
/// cached member other than the primary.
pub open spec fn grouped_subtitle(
    outs: Seq<OutputV>,
    ids: Seq<Seq<char>>,
    primary_id: Seq<char>,
    i: int,
) -> Seq<char>
    decreases i,
{
    if i <= 0 {
        "Grouped with:"@
    } else {
        let rest = grouped_subtitle(outs, ids, primary_id, i - 1);
        let id = ids[i - 1];
        if id == primary_id {
            rest
        } else if outputs_has(outs, id) {
            rest + seq!['\n'] + output_lookup(outs, id)->0.display_name
        } else {
            rest
        }
    }
}

pub open spec fn group_label(s: SettingsV, outs: Seq<OutputV>) -> LabelTextV {
    let primary_id = s.primary_output_id->0;
    LabelTextV {
        title: output_lookup(outs, primary_id)->0.display_name,
        subtitle: Some(
            grouped_subtitle(outs, s.output_ids, primary_id, s.output_ids.len() as int),
        ),
    }
}

/// The full rendered tree, in emission order: the preset selector; when a
/// slot is chosen, the action selector (existing presets only), the editor
/// group (under the Edit action), and the summary label (once a primary is
/// set).
pub open spec fn layout_items(s: SettingsV, outs: Seq<OutputV>) -> Seq<LayoutItemV> {
    let base = seq![LayoutItemV::Widget(WidgetV::Dropdown(preset_dropdown(s)))];
    if s.selected is Some {
        let with_action = if s.selected->0 as int != s.presets.len() as int {
            base + seq![LayoutItemV::Widget(WidgetV::Dropdown(action_dropdown()))]
        } else {
            base
        };
        let with_editor = if s.action == Action::Edit {
            with_action + seq![LayoutItemV::Group(editor_group(s, outs))]
        } else {
            with_action
        };
        if s.primary_output_id is Some {
            with_editor + seq![LayoutItemV::Widget(WidgetV::Label(group_label(s, outs)))]
        } else {
            with_editor
        }
    } else {
        base
    }
}

/// The form carries a validation error exactly when the level field is
/// shown and its text parses outside the live bounds.
pub open spec fn layout_has_error(s: SettingsV, outs: Seq<OutputV>) -> bool {
    &&& s.selected is Some
    &&& s.action == Action::Edit
    &&& s.name.len() > 0
    &&& s.primary_output_id is Some
    &&& outputs_has(outs, s.primary_output_id->0)
    &&& s.volume_type is Preset
    &&& s.volume_output_id is Some
    &&& {
        let o = outs[output_index(outs, s.volume_output_id->0)];
        volume_out_of_range(s.volume_level, o.volume.min, o.volume.max)
    }
}

/// What rendering presupposes of its inputs: a uniquely keyed output
/// cache, and that every output id the render dereferences resolves in it.
pub open spec fn layout_inputs_ok(s: SettingsV, outs: Seq<OutputV>) -> bool {
    &&& outputs_unique(outs)
    &&& (s.selected is Some && s.primary_output_id is Some ==> outputs_has(
        outs,
        s.primary_output_id->0,
    ))
    &&& (s.selected is Some && s.action == Action::Edit && s.name.len() > 0
        && s.primary_output_id is Some && s.volume_type is Preset ==> {
        &&& (forall|i: int| 0 <= i < s.output_ids.len() ==> outputs_has(outs, #[trigger] s.output_ids[i]))
        &&& (s.volume_output_id is Some ==> outputs_has(outs, s.volume_output_id->0))
    })
    &&& (s.selected is Some && s.action == Action::Edit && s.name.len() > 0
        && s.primary_output_id is Some ==> {
        let primary = outs[output_index(outs, s.primary_output_id->0)];
        forall|i: int|
            0 <= i < primary.can_group_with_output_ids.len()
                ==> #[trigger] primary.can_group_with_output_ids[i] == primary.output_id
                || outputs_has(outs, primary.can_group_with_output_ids[i])
    })
}

/// Checks the rendering preconditions on live data, so that a caller can
/// refuse a submission rather than render from an unresolvable state.
pub fn layout_inputs_check(settings: &GroupingSettings, outputs: &Vec<Output>) -> (r: bool)
    ensures
        r == layout_inputs_ok(settings@, outputs.deep_view()),
{
    let ghost s = settings@;
    let ghost outs = outputs.deep_view();
    if !crate::model::outputs_unique_check(outputs) {
        return false;
    }
    let is_selected = settings.selected.is_some();
    let primary = match &settings.primary_output_id {
        Some(p) => Some(p.clone()),
        None => None,
    };
    if is_selected {
        if let Some(pid) = &primary {
            match find_output(outputs, pid) {
                None => {
                    return false;
                },
                Some(pi) => {
                    let editing = match settings.action {
                        Action::Edit => true,
                        _ => false,
                    };
                    let named = !settings.name.as_str().is_empty();
                    if editing && named {
                        let mut i: usize = 0;
                        while i < outputs[pi].can_group_with_output_ids.len()
                            invariant
                                s == settings@,
                                outs == outputs.deep_view(),
                                outputs_unique(outs),
                                s.selected is Some,
                                s.action == Action::Edit,
                                s.name.len() > 0,
                                s.primary_output_id is Some,
                                pi < outputs.len(),
                                outs[pi as int] == outs[output_index(
                                    outs,
                                    s.primary_output_id->0,
                                )],
                                i <= outs[pi as int].can_group_with_output_ids.len(),
                                forall|j: int|
                                    0 <= j < i ==> #[trigger] outs[pi as int].can_group_with_output_ids[j]
                                        == outs[pi as int].output_id || outputs_has(
                                        outs,
                                        outs[pi as int].can_group_with_output_ids[j],
                                    ),
                            decreases outputs[pi as int].can_group_with_output_ids.len() - i,
                        {
                            let gid = outputs[pi].can_group_with_output_ids[i].clone();
                            proof {
                                assert(gid@ == outs[pi as int].can_group_with_output_ids[i as int]);
                            }
                            if !(gid == outputs[pi].output_id) {
                                if find_output(outputs, &gid).is_none() {
                                    proof {
                                        let primary_v = outs[output_index(
                                            outs,
                                            s.primary_output_id->0,
                                        )];
                                        assert(primary_v.can_group_with_output_ids[i as int]
                                            == gid@);
                                        assert(!(primary_v.can_group_with_output_ids[i as int]
                                            == primary_v.output_id || outputs_has(
                                            outs,
                                            primary_v.can_group_with_output_ids[i as int],
                                        )));
                                        assert(!layout_inputs_ok(s, outs));
                                    }
                                    return false;
                                }
                            }
                            i = i + 1;
                        }
                        let vt_preset = match settings.volume_type {
                            VolumeType::Preset => true,
                            _ => false,
                        };
                        if vt_preset {
                            let mut i: usize = 0;
                            while i < settings.output_ids.len()
                                invariant
                                    s == settings@,
                                    outs == outputs.deep_view(),
                                    outputs_unique(outs),
                                    s.selected is Some,
                                    s.action == Action::Edit,
                                    s.name.len() > 0,
                                    s.primary_output_id is Some,
                                    s.volume_type is Preset,
                                    i <= settings.output_ids.len(),
                                    forall|j: int|
                                        0 <= j < i ==> outputs_has(
                                            outs,
                                            #[trigger] s.output_ids[j],
                                        ),
                                decreases settings.output_ids.len() - i,
                            {
                                if find_output(outputs, &settings.output_ids[i]).is_none() {
                                    proof {
                                        assert(!outputs_has(outs, s.output_ids[i as int]));
                                        assert(!layout_inputs_ok(s, outs));
                                    }
                                    return false;
                                }
                                i = i + 1;
                            }
                            if let Some(vid) = &settings.volume_output_id {
                                if find_output(outputs, vid).is_none() {
                                    return false;
                                }
                            }
                        }
                    }
                },
            }
        }
    }
    true
}

/// Copies a literal into an owned string.
fn lit(s: &str) -> (r: String)
    ensures
        r@ == s@,
{
    s.to_owned()
}

/// Builds the preset selector.
fn build_preset_dropdown(settings: &GroupingSettings) -> (r: Dropdown)
    ensures
        r@ == preset_dropdown(settings@),
{
    let ghost s = settings@;
    let mut values: Vec<Choice> = Vec::new();
    values.push(Choice { title: lit("(select preset)"), value: ChoiceValue::Null });
    proof {
        assert(values.deep_view() =~= seq![
            ChoiceV { title: "(select preset)"@, value: ChoiceValueV::Null },
        ] + preset_name_choices(s.presets, 0));
    }
    let mut i: usize = 0;
    while i < settings.presets.len()
        invariant
            s == settings@,
            i <= settings.presets.len(),
            values@.len() == 1 + preset_name_choices(s.presets, i as int).len(),
            values.deep_view() =~= seq![
                ChoiceV { title: "(select preset)"@, value: ChoiceValueV::Null },
            ] + preset_name_choices(s.presets, i as int),
        decreases settings.presets.len() - i,
    {
        proof {
            assert(s.presets[i as int] == settings.presets[i as int]@);
            assert(preset_name_choices(s.presets, i + 1) == (if s.presets[i as int].name.len()
                > 0 {
                preset_name_choices(s.presets, i as int).push(
                    ChoiceV {
                        title: s.presets[i as int].name,
                        value: ChoiceValueV::Index(i),
                    },
                )
            } else {
                preset_name_choices(s.presets, i as int)
            }));
        }
        if !settings.presets[i].name.as_str().is_empty() {
            let title = settings.presets[i].name.clone();
            let c = Choice { title, value: ChoiceValue::Index(i) };
            let ghost cv = c@;
            let ghost prev = values;
            values.push(c);
            proof {
                crate::model::lemma_vec_deep_view_push(prev, values);
                assert(cv == (ChoiceV {
                    title: s.presets[i as int].name,
                    value: ChoiceValueV::Index(i),
                }));
                assert(values.deep_view() =~= prev.deep_view().push(cv));
                assert(values.deep_view() =~= seq![
                    ChoiceV { title: "(select preset)"@, value: ChoiceValueV::Null },
                ] + preset_name_choices(s.presets, i + 1));
            }
        } else {
            proof {
                assert(values.deep_view() =~= seq![
                    ChoiceV { title: "(select preset)"@, value: ChoiceValueV::Null },
                ] + preset_name_choices(s.presets, i + 1));
            }
        }
        i = i + 1;
    }
    values.push(
        Choice { title: lit("New Preset"), value: ChoiceValue::Index(settings.presets.len()) },
    );
    let r = Dropdown {
        title: lit("Preset"),
        subtitle: None,
        values,
        setting: lit("selected"),
    };
    proof {
        assert(s.presets.len() == settings.presets@.len());
        assert(r@.values =~= preset_choices(s));
        assert(r@ =~= preset_dropdown(s));
    }
    r
}

/// Builds the action selector.
fn build_action_dropdown() -> (r: Dropdown)
    ensures
        r@ == action_dropdown(),
{
    let mut values: Vec<Choice> = Vec::new();
    values.push(Choice { title: lit("(select action)"), value: ChoiceValue::Null });
    values.push(
        Choice {
            title: lit("Activate"),
            value: ChoiceValue::Index(crate::model::action_code(Action::Activate)),
        },
    );
    values.push(
        Choice {
            title: lit("Deactivate"),
            value: ChoiceValue::Index(crate::model::action_code(Action::Deactivate)),
        },
    );
    values.push(
        Choice {
            title: lit("Edit"),
            value: ChoiceValue::Index(crate::model::action_code(Action::Edit)),
        },
    );
    values.push(
        Choice {
            title: lit("Delete"),
            value: ChoiceValue::Index(crate::model::action_code(Action::Delete)),
        },
    );
    let r = Dropdown {
        title: lit("Action"),
        subtitle: None,
        values,
        setting: lit("action"),
    };
    proof {
        assert(r@.values =~= action_dropdown().values);
        assert(r@ =~= action_dropdown());
    }
    r
}

/// Builds the primary output selector over the whole output cache.
fn build_primary_dropdown(outputs: &Vec<Output>) -> (r: Dropdown)
    ensures
        r@ == primary_dropdown(outputs.deep_view()),
{
    let ghost outs = outputs.deep_view();
    let mut values: Vec<Choice> = Vec::new();
    values.push(Choice { title: lit("(select output)"), value: ChoiceValue::Null });
    proof {
        assert(values.deep_view() =~= seq![
            ChoiceV { title: "(select output)"@, value: ChoiceValueV::Null },
        ] + output_choices(outs, 0));
    }
    let mut i: usize = 0;
    while i < outputs.len()
        invariant
            outs == outputs.deep_view(),
            i <= outputs.len(),
            values@.len() == 1 + i,
            values.deep_view() =~= seq![
                ChoiceV { title: "(select output)"@, value: ChoiceValueV::Null },
            ] + output_choices(outs, i as int),
        decreases outputs.len() - i,
    {
        let title = outputs[i].display_name.clone();
        let id = outputs[i].output_id.clone();
        let c = Choice { title, value: ChoiceValue::Id(id) };
        let ghost cv = c@;
        let ghost prev = values;
        values.push(c);
        proof {
            assert(outs[i as int] == outputs[i as int]@);
            assert(output_choices(outs, i + 1) == output_choices(outs, i as int).push(
                ChoiceV {
                    title: outs[i as int].display_name,
                    value: ChoiceValueV::Id(outs[i as int].output_id),
                },
            ));
            crate::model::lemma_vec_deep_view_push(prev, values);
            assert(cv == (ChoiceV {
                title: outs[i as int].display_name,
                value: ChoiceValueV::Id(outs[i as int].output_id),
            }));
            assert(values.deep_view() =~= prev.deep_view().push(cv));
            assert(values.deep_view() =~= seq![
                ChoiceV { title: "(select output)"@, value: ChoiceValueV::Null },
            ] + output_choices(outs, i + 1));
        }
        i = i + 1;
    }
    let r = Dropdown {
        title: lit("Primary Output"),
        subtitle: None,
        values,
        setting: lit("primary_output_id"),
    };
    proof {
        assert(r@.values =~= primary_dropdown(outs).values);
        assert(r@ =~= primary_dropdown(outs));
    }
    r
}

/// Builds the group-with selector from the primary's groupable outputs.
fn build_group_with_dropdown(outputs: &Vec<Output>, pi: usize) -> (r: Dropdown)
    requires
        outputs_unique(outputs.deep_view()),
        pi < outputs.len(),
        forall|j: int|
            0 <= j < outputs.deep_view()[pi as int].can_group_with_output_ids.len()
                ==> #[trigger] outputs.deep_view()[pi as int].can_group_with_output_ids[j]
                == outputs.deep_view()[pi as int].output_id || outputs_has(
                outputs.deep_view(),
                outputs.deep_view()[pi as int].can_group_with_output_ids[j],
            ),
    ensures
        r@ == group_with_dropdown(outputs.deep_view(), outputs.deep_view()[pi as int]),
{
    let ghost outs = outputs.deep_view();
    let ghost primary = outs[pi as int];
    let mut values: Vec<Choice> = Vec::new();
    values.push(Choice { title: lit("(select output)"), value: ChoiceValue::Null });
    proof {
        assert(values.deep_view() =~= seq![
            ChoiceV { title: "(select output)"@, value: ChoiceValueV::Null },
        ] + group_with_choices(outs, primary, 0));
    }
    let mut i: usize = 0;
    while i < outputs[pi].can_group_with_output_ids.len()
        invariant
            outs == outputs.deep_view(),
            outputs_unique(outs),
            pi < outputs.len(),
            primary == outs[pi as int],
            forall|j: int|
                0 <= j < primary.can_group_with_output_ids.len()
                    ==> #[trigger] primary.can_group_with_output_ids[j] == primary.output_id
                    || outputs_has(outs, primary.can_group_with_output_ids[j]),
            i <= primary.can_group_with_output_ids.len(),
            values.deep_view() =~= seq![
                ChoiceV { title: "(select output)"@, value: ChoiceValueV::Null },
            ] + group_with_choices(outs, primary, i as int),
        decreases outputs[pi as int].can_group_with_output_ids.len() - i,
    {
        let gid = outputs[pi].can_group_with_output_ids[i].clone();
        proof {
            assert(gid@ == primary.can_group_with_output_ids[i as int]);
        }
        proof {
            assert(group_with_choices(outs, primary, i + 1) == (if primary.can_group_with_output_ids[i as int]
                == primary.output_id {
                group_with_choices(outs, primary, i as int)
            } else {
                group_with_choices(outs, primary, i as int).push(
                    ChoiceV {
                        title: output_lookup(
                            outs,
                            primary.can_group_with_output_ids[i as int],
                        )->0.display_name,
                        value: ChoiceValueV::Id(primary.can_group_with_output_ids[i as int]),
                    },
                )
            }));
        }
        if !(gid == outputs[pi].output_id) {
            match find_output(outputs, &gid) {
                Some(oi) => {
                    let title = outputs[oi].display_name.clone();
                    let c = Choice { title, value: ChoiceValue::Id(gid) };
                    let ghost cv = c@;
                    let ghost prev = values;
                    values.push(c);
                    proof {
                        assert(outs[oi as int] == output_lookup(
                            outs,
                            primary.can_group_with_output_ids[i as int],
                        )->0);
                        assert(cv == (ChoiceV {
                            title: output_lookup(
                                outs,
                                primary.can_group_with_output_ids[i as int],
                            )->0.display_name,
                            value: ChoiceValueV::Id(primary.can_group_with_output_ids[i as int]),
                        }));
                        crate::model::lemma_vec_deep_view_push(prev, values);
                        assert(values.deep_view() =~= prev.deep_view().push(cv));
                        assert(values.deep_view() =~= seq![
                            ChoiceV { title: "(select output)"@, value: ChoiceValueV::Null },
                        ] + group_with_choices(outs, primary, i + 1));
                    }
                },
                None => {
                    return unreached();
                },
            }
        } else {
            proof {
                assert(values.deep_view() =~= seq![
                    ChoiceV { title: "(select output)"@, value: ChoiceValueV::Null },
                ] + group_with_choices(outs, primary, i + 1));
            }
        }
        i = i + 1;
    }
    let r = Dropdown {
        title: lit("Group With"),
        subtitle: None,
        values,
        setting: lit("add"),
    };
    proof {
        assert(r@.values =~= group_with_dropdown(outs, primary).values);
        assert(r@ =~= group_with_dropdown(outs, primary));
    }
    r
}

/// Builds the volume policy selector.
fn build_volume_control_dropdown() -> (r: Dropdown)
    ensures
        r@ == volume_control_dropdown(),
{
    let mut values: Vec<Choice> = Vec::new();
    values.push(Choice { title: lit("(select volume control)"), value: ChoiceValue::Null });
    values.push(
        Choice {
            title: lit("Untouched"),
            value: ChoiceValue::Index(crate::model::volume_type_code(VolumeType::Untouched)),
        },
    );
    values.push(
        Choice {
            title: lit("Last Used"),
            value: ChoiceValue::Index(crate::model::volume_type_code(VolumeType::LastUsed)),
        },
    );
    values.push(
        Choice {
            title: lit("Preset"),
            value: ChoiceValue::Index(crate::model::volume_type_code(VolumeType::Preset)),
        },
    );
    let r = Dropdown {
        title: lit("Volume Control"),
        subtitle: None,
        values,
        setting: lit("volume_type"),
    };
    proof {
        assert(r@.values =~= volume_control_dropdown().values);
        assert(r@ =~= volume_control_dropdown());
    }
    r
}

/// Builds the volume output selector over the working output list.
fn build_volume_output_dropdown(outputs: &Vec<Output>, ids: &Vec<String>) -> (r: Dropdown)
    requires
        outputs_unique(outputs.deep_view()),
        forall|j: int|
            0 <= j < ids.deep_view().len() ==> outputs_has(
                outputs.deep_view(),
                #[trigger] ids.deep_view()[j],
            ),
    ensures
        r@ == volume_output_dropdown(outputs.deep_view(), ids.deep_view()),
{
    let ghost outs = outputs.deep_view();
    let ghost idv = ids.deep_view();
    let mut values: Vec<Choice> = Vec::new();
    values.push(Choice { title: lit("(select output)"), value: ChoiceValue::Null });
    proof {
        assert(values.deep_view() =~= seq![
            ChoiceV { title: "(select output)"@, value: ChoiceValueV::Null },
        ] + volume_output_choices(outs, idv, 0));
    }
    let mut i: usize = 0;
    while i < ids.len()
        invariant
            outs == outputs.deep_view(),
            idv == ids.deep_view(),
            outputs_unique(outs),
            forall|j: int| 0 <= j < idv.len() ==> outputs_has(outs, #[trigger] idv[j]),
            i <= ids.len(),
            values.deep_view() =~= seq![
                ChoiceV { title: "(select output)"@, value: ChoiceValueV::Null },
            ] + volume_output_choices(outs, idv, i as int),
        decreases ids.len() - i,
    {
        match find_output(outputs, &ids[i]) {
            Some(oi) => {
                let title = outputs[oi].display_name.clone();
                let id = ids[i].clone();
                let c = Choice { title, value: ChoiceValue::Id(id) };
                let ghost cv = c@;
                let ghost prev = values;
                values.push(c);
                proof {
                    assert(volume_output_choices(outs, idv, i + 1) == volume_output_choices(
                        outs,
                        idv,
                        i as int,
                    ).push(
                        ChoiceV {
                            title: output_lookup(outs, idv[i as int])->0.display_name,
                            value: ChoiceValueV::Id(idv[i as int]),
                        },
                    ));
                    assert(outs[oi as int] == output_lookup(outs, idv[i as int])->0);
                    assert(cv == (ChoiceV {
                        title: output_lookup(outs, idv[i as int])->0.display_name,
                        value: ChoiceValueV::Id(idv[i as int]),
                    }));
                    crate::model::lemma_vec_deep_view_push(prev, values);
                    assert(values.deep_view() =~= prev.deep_view().push(cv));
                    assert(values.deep_view() =~= seq![
                        ChoiceV { title: "(select output)"@, value: ChoiceValueV::Null },
                    ] + volume_output_choices(outs, idv, i + 1));
                }
            },
            None => {
                return unreached();
            },
        }
        i = i + 1;
    }
    let r = Dropdown {
        title: lit("Output"),
        subtitle: None,
        values,
        setting: lit("volume_output_id"),
    };
    proof {
        assert(r@.values =~= volume_output_dropdown(outs, idv).values);
        assert(r@ =~= volume_output_dropdown(outs, idv));
    }
    r
}

/// Builds the read-only summary label for the chosen primary output.
fn build_group_label(settings: &GroupingSettings, outputs: &Vec<Output>, pi: usize) -> (r:
    LabelText)
    requires
        outputs_unique(outputs.deep_view()),
        pi < outputs.len(),
        settings@.primary_output_id is Some,
        outputs.deep_view()[pi as int].output_id == settings@.primary_output_id->0,
    ensures
        r@ == group_label(settings@, outputs.deep_view()),
{
    let ghost s = settings@;
    let ghost outs = outputs.deep_view();
    let ghost primary_id = s.primary_output_id->0;
    proof {
        assert(outputs_has(outs, primary_id));
        let i2 = output_index(outs, primary_id);
        if i2 != pi {
            assert(outs[i2].output_id == primary_id);
            assert(false);
        }
    }
    let title = outputs[pi].display_name.clone();
    let mut subtitle = lit("Grouped with:");
    proof {
        assert(subtitle@ == grouped_subtitle(outs, s.output_ids, primary_id, 0));
    }
    let mut i: usize = 0;
    while i < settings.output_ids.len()
        invariant
            s == settings@,
            outs == outputs.deep_view(),
            outputs_unique(outs),
            pi < outputs.len(),
            outs[pi as int].output_id == primary_id,
            primary_id == s.primary_output_id->0,
            i <= settings.output_ids.len(),
            subtitle@ == grouped_subtitle(outs, s.output_ids, primary_id, i as int),
        decreases settings.output_ids.len() - i,
    {
        let id = settings.output_ids[i].clone();
        proof {
            assert(id@ == s.output_ids[i as int]);
        }
        if !(id == outputs[pi].output_id) {
            match find_output(outputs, &id) {
                Some(oi) => {
                    subtitle.append("\n");
                    subtitle.append(outputs[oi].display_name.as_str());
                    proof {
                        reveal_strlit("\n");
                        assert(outs[oi as int] == output_lookup(outs, id@)->0);
                        assert(subtitle@ =~= grouped_subtitle(outs, s.output_ids, primary_id, i
                            + 1));
                    }
                },
                None => {
                    proof {
                        assert(subtitle@ =~= grouped_subtitle(outs, s.output_ids, primary_id, i
                            + 1));
                    }
                },
            }
        } else {
            proof {
                assert(subtitle@ =~= grouped_subtitle(outs, s.output_ids, primary_id, i + 1));
            }
        }
        i = i + 1;
    }
    let r = LabelText { title, subtitle: Some(subtitle) };
    proof {
        assert(s.output_ids.len() == settings.output_ids@.len());
        assert(r@ =~= group_label(s, outs));
    }
    r
}

/// Renders the settings state into the form tree, validating the volume
/// level field against the chosen output's live bounds and raising the
/// form-level error flag when it lies outside them.
pub fn make_layout(settings: GroupingSettings, outputs: &Vec<Output>) -> (r: Layout)
    requires
        layout_inputs_ok(settings@, outputs.deep_view()),
    ensures
        r.settings@ == settings@,
        r.widgets.deep_view() == layout_items(settings@, outputs.deep_view()),
        r.has_error == layout_has_error(settings@, outputs.deep_view()),
{
    let ghost s = settings@;
    let ghost outs = outputs.deep_view();
    let mut widgets: Vec<LayoutItem> = Vec::new();
    let mut has_error = false;
    widgets.push(LayoutItem::Widget(Widget::Dropdown(build_preset_dropdown(&settings))));
    let ghost base = seq![LayoutItemV::Widget(WidgetV::Dropdown(preset_dropdown(s)))];
    proof {
        assert(widgets.deep_view() =~= base);
    }
    if settings.selected.is_some() {
        let sel = match settings.selected {
            Some(x) => x,
            None => unreached(),
        };
        if sel != settings.presets.len() {
            widgets.push(LayoutItem::Widget(Widget::Dropdown(build_action_dropdown())));
        }
        let ghost with_action = if s.selected->0 as int != s.presets.len() as int {
            base + seq![LayoutItemV::Widget(WidgetV::Dropdown(action_dropdown()))]
        } else {
            base
        };
        proof {
            assert(s.presets.len() == settings.presets@.len());
            assert(widgets.deep_view() =~= with_action);
        }
        let editing = match settings.action {
            Action::Edit => true,
            _ => false,
        };
        if editing {
            let mut items: Vec<Widget> = Vec::new();
            items.push(
                Widget::Textbox(
                    Textbox { title: lit("Name"), subtitle: None, setting: lit("name") },
                ),
            );
            proof {
                assert(items.deep_view() =~= seq![
                    WidgetV::Textbox(
                        TextboxV { title: "Name"@, subtitle: None, setting: "name"@ },
                    ),
                ]);
            }
            if !settings.name.as_str().is_empty() {
                items.push(Widget::Dropdown(build_primary_dropdown(outputs)));
                if let Some(pid) = &settings.primary_output_id {
                    match find_output(outputs, pid) {
                        Some(pi) => {
                            items.push(Widget::Dropdown(build_group_with_dropdown(outputs, pi)));
                            items.push(Widget::Dropdown(build_volume_control_dropdown()));
                            let vt_preset = match settings.volume_type {
                                VolumeType::Preset => true,
                                _ => false,
                            };
                            if vt_preset {
                                items.push(
                                    Widget::Dropdown(
                                        build_volume_output_dropdown(
                                            outputs,
                                            &settings.output_ids,
                                        ),
                                    ),
                                );
                                if let Some(vid) = &settings.volume_output_id {
                                    match find_output(outputs, vid) {
                                        Some(oi) => {
                                            let vmin = outputs[oi].volume.min;
                                            let vmax = outputs[oi].volume.max;
                                            let mut error: Option<String> = None;
                                            match parse_i32(settings.volume_level.as_str()) {
                                                Some(v) => {
                                                    if v < vmin || v > vmax {
                                                        let mut msg = lit(
                                                            "Volume level should be between ",
                                                        );
                                                        let mins = i32_to_string(vmin);
                                                        msg.append(mins.as_str());
                                                        msg.append(" and ");
                                                        let maxs = i32_to_string(vmax);
                                                        msg.append(maxs.as_str());
                                                        proof {
                                                            assert(msg@ =~= volume_error_text(
                                                                vmin,
                                                                vmax,
                                                            ));
                                                        }
                                                        error = Some(msg);
                                                        has_error = true;
                                                    }
                                                },
                                                None => {},
                                            }
                                            items.push(
                                                Widget::Integer(
                                                    IntegerInput {
                                                        title: lit("Volume Level"),
                                                        subtitle: None,
                                                        min: vmin,
                                                        max: vmax,
                                                        setting: lit("volume_level"),
                                                        error,
                                                    },
                                                ),
                                            );
                                            proof {
                                                assert(outs[oi as int] == outs[output_index(
                                                    outs,
                                                    s.volume_output_id->0,
                                                )]);
                                            }
                                        },
                                        None => {
                                            return unreached();
                                        },
                                    }
                                }
                            }
                        },
                        None => {},
                    }
                }
            }
            proof {
                assert(items.deep_view() =~= editor_items(s, outs));
            }
            widgets.push(
                LayoutItem::Group(
                    WidgetGroup {
                        title: lit("Preset Editor"),
                        subtitle: None,
                        collapsable: true,
                        items,
                    },
                ),
            );
            proof {
                assert(widgets.deep_view() =~= with_action + seq![
                    LayoutItemV::Group(editor_group(s, outs)),
                ]);
            }
        }
        let ghost with_editor = if s.action == Action::Edit {
            with_action + seq![LayoutItemV::Group(editor_group(s, outs))]
        } else {
            with_action
        };
        proof {
            assert(widgets.deep_view() =~= with_editor);
        }
        if let Some(pid) = &settings.primary_output_id {
            match find_output(outputs, pid) {
                Some(pi) => {
                    widgets.push(
                        LayoutItem::Widget(
                            Widget::Label(build_group_label(&settings, outputs, pi)),
                        ),
                    );
                    proof {
                        assert(widgets.deep_view() =~= with_editor + seq![
                            LayoutItemV::Widget(WidgetV::Label(group_label(s, outs))),
                        ]);
                    }
                },
                None => {
                    return unreached();
                },
            }
        }
    }
    proof {
        assert(widgets.deep_view() =~= layout_items(s, outs));
        assert(has_error == layout_has_error(s, outs));
    }
    Layout { settings, widgets, has_error }
}

} // verus!
