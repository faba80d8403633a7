//! Settings reducers: applying a submitted form to persisted state.
//! Each reducer has a spec-level twin that states the new state exactly.

use vstd::prelude::*;
use crate::model::{
    GroupingSettings, Output, OutputV, Preset, PresetV, SettingsV, VolumeType, Action, kv_lookup,
    kv_store, kv_unique, outputs_has, outputs_unique, output_index, contains_id, find_output,
    kv_get, kv_set, clone_string_vec,
};
use crate::text::{int_text, int_text_val, int_text_valid, parse_i32, i32_to_string,
    lemma_int_text_round_trip};

verus! {

/// Every preset of the form state keeps uniquely keyed captured volumes.
pub open spec fn wf_settings_volumes(s: SettingsV) -> bool {
    forall|i: int| 0 <= i < s.presets.len() ==> kv_unique(#[trigger] s.presets[i].volumes)
}

/// Checks that every preset of the form state keeps uniquely keyed
/// captured volumes.
pub fn settings_volumes_check(settings: &GroupingSettings) -> (r: bool)
    ensures
        r == wf_settings_volumes(settings@),
{
    let ghost s = settings@;
    let mut i: usize = 0;
    while i < settings.presets.len()
        invariant
            s == settings@,
            i <= settings.presets.len(),
            forall|k: int| 0 <= k < i ==> kv_unique(#[trigger] s.presets[k].volumes),
        decreases settings.presets.len() - i,
    {
        let ok = crate::model::kv_unique_check(&settings.presets[i].volumes);
        proof {
            assert(s.presets[i as int] == settings.presets@[i as int].deep_view());
        }
        if !ok {
            proof {
                assert(!kv_unique(s.presets[i as int].volumes));
                assert(!wf_settings_volumes(s));
            }
            return false;
        }
        i = i + 1;
    }
    true
}

/// The working output list after normalisation: seeded with the primary
/// output when empty, with the candidate output appended unless already
/// present.  Only meaningful when `add` and `primary_output_id` are set.
pub open spec fn normalized_output_ids(s: SettingsV) -> Seq<Seq<char>> {
    let ids0 = if s.output_ids.len() == 0 {
        s.output_ids.push(s.primary_output_id->0)
    } else {
        s.output_ids
    };
    if !ids0.contains(s.add->0) {
        ids0.push(s.add->0)
    } else {
        ids0
    }
}

/// What storing the edited preset does: the new state, and whether the form
/// was actionable (candidate and primary set, name present, a slot chosen).
pub open spec fn store_preset_spec(s: SettingsV) -> (SettingsV, bool) {
    if s.add is None || s.primary_output_id is None {
        (s, false)
    } else {
        let ids = normalized_output_ids(s);
        let s1 = SettingsV { output_ids: ids, ..s };
        if s.name.len() > 0 && s.selected is Some {
            let sel = s.selected->0;
            let p = PresetV {
                name: s.name,
                output_ids: ids,
                volume_type: VolumeType::Untouched,
                volumes: Seq::empty(),
            };
            if (sel as int) < s.presets.len() {
                (SettingsV { presets: s.presets.update(sel as int, p), ..s1 }, true)
            } else {
                (
                    SettingsV {
                        selected: Some(s.presets.len() as usize),
                        presets: s.presets.push(p),
                        ..s1
                    },
                    true,
                )
            }
        } else {
            (s1, false)
        }
    }
}

/// Stores the in-flight edit as a preset.  Normalises the working output
/// list, then writes `Preset { name, output_ids }` at the selected slot
/// (in place below the list, appended at the "new preset" sentinel).
/// Returns `Some` exactly when the form was actionable.
pub fn store_preset(settings: &mut GroupingSettings) -> (r: Option<()>)
    ensures
        final(settings)@ == store_preset_spec(old(settings)@).0,
        (r is Some) == store_preset_spec(old(settings)@).1,
        wf_settings_volumes(old(settings)@) ==> wf_settings_volumes(final(settings)@),
{
    proof {
        if wf_settings_volumes(old(settings)@) {
            let s1 = store_preset_spec(old(settings)@).0;
            assert forall|k: int| 0 <= k < s1.presets.len() implies kv_unique(
                #[trigger] s1.presets[k].volumes,
            ) by {
                if k < old(settings)@.presets.len() && s1.presets[k] == old(
                    settings,
                )@.presets[k] {
                } else {
                    assert(s1.presets[k].volumes =~= Seq::<(Seq<char>, i32)>::empty());
                }
            }
        }
    }
    let name_present = !settings.name.as_str().is_empty();
    let add = match &settings.add {
        Some(a) => a.clone(),
        None => {
            return None;
        },
    };
    let primary = match &settings.primary_output_id {
        Some(p) => p.clone(),
        None => {
            return None;
        },
    };
    let ghost ids_in = old(settings)@.output_ids;
    if settings.output_ids.len() == 0 {
        settings.output_ids.push(primary);
        proof {
            assert(ids_in.len() == 0);
            assert(settings.output_ids.deep_view() =~= ids_in.push(
                old(settings)@.primary_output_id->0,
            ));
        }
    }
    let ghost ids0 = settings.output_ids.deep_view();
    if !contains_id(&settings.output_ids, &add) {
        settings.output_ids.push(add);
        proof {
            assert(settings.output_ids.deep_view() =~= ids0.push(old(settings)@.add->0));
        }
    }
    proof {
        assert(settings.output_ids.deep_view() =~= normalized_output_ids(old(settings)@));
    }
    if name_present {
        if let Some(sel) = settings.selected {
            let preset = Preset {
                name: settings.name.clone(),
                output_ids: clone_string_vec(&settings.output_ids),
                volume_type: VolumeType::Untouched,
                volumes: Vec::new(),
            };
            proof {
                assert(preset@.volumes =~= Seq::<(Seq<char>, i32)>::empty());
            }
            if sel < settings.presets.len() {
                settings.presets[sel] = preset;
                proof {
                    assert(settings@.presets =~= store_preset_spec(old(settings)@).0.presets);
                    assert(settings@ =~= store_preset_spec(old(settings)@).0);
                }
            } else {
                settings.selected = Some(settings.presets.len());
                settings.presets.push(preset);
                proof {
                    assert(settings@.presets =~= store_preset_spec(old(settings)@).0.presets);
                    assert(settings@ =~= store_preset_spec(old(settings)@).0);
                }
            }
            return Some(());
        }
    }
    proof {
        assert(settings@ =~= store_preset_spec(old(settings)@).0);
    }
    None
}

/// Storing is idempotent: a second store with unchanged `add`, primary and
/// name leaves the whole state (working output list included) as the first
/// store left it, and is actionable exactly when the first one was.
pub proof fn lemma_store_preset_idempotent(s: SettingsV)
    requires
        s.presets.len() < usize::MAX,
    ensures
        store_preset_spec(store_preset_spec(s).0).0 == store_preset_spec(s).0,
        store_preset_spec(store_preset_spec(s).0).1 == store_preset_spec(s).1,
{
    if s.add is None || s.primary_output_id is None {
    } else {
        let add = s.add->0;
        let ids = normalized_output_ids(s);
        assert(ids.contains(add)) by {
            let ids0 = if s.output_ids.len() == 0 {
                s.output_ids.push(s.primary_output_id->0)
            } else {
                s.output_ids
            };
            if !ids0.contains(add) {
                assert(ids[ids.len() - 1] == add);
            }
        }
        let s2 = store_preset_spec(s).0;
        assert(s2.output_ids == ids && s2.add == s.add && s2.primary_output_id
            == s.primary_output_id && s2.name == s.name);
        assert(ids.len() > 0) by {
            if s.output_ids.len() == 0 {
                if !s.output_ids.push(s.primary_output_id->0).contains(add) {
                } else {
                }
            }
        }
        assert(normalized_output_ids(s2) == ids) by {
            assert(ids.len() != 0);
        }
        if s.name.len() > 0 && s.selected is Some {
            let sel = s.selected->0;
            let p = PresetV {
                name: s.name,
                output_ids: ids,
                volume_type: VolumeType::Untouched,
                volumes: Seq::empty(),
            };
            if (sel as int) < s.presets.len() {
                assert(s2.selected == s.selected);
                assert(s2.presets == s.presets.update(sel as int, p));
                assert(s2.presets[sel as int] == p);
                assert(s2.presets.update(sel as int, p) =~= s2.presets);
                assert(store_preset_spec(s2).0 =~= s2);
            } else {
                let sel2 = s.presets.len() as usize;
                assert(s2.selected == Some(sel2));
                assert(s2.presets == s.presets.push(p));
                assert((sel2 as int) < s2.presets.len());
                assert(s2.presets[sel2 as int] == p);
                assert(s2.presets.update(sel2 as int, p) =~= s2.presets);
                assert(store_preset_spec(s2).0 =~= s2);
            }
        } else {
            assert(store_preset_spec(s2).0 =~= s2);
        }
    }
}

/// What storing the volume field does: the new state and whether a level
/// was recorded.  Applies when a stored preset is selected; always copies
/// the chosen volume policy onto it; under the `Preset` policy, seeds the
/// level field from the output's live value when no level was captured yet,
/// then parses the field and records the level under the chosen output.
pub open spec fn store_volume_spec(s: SettingsV, outs: Seq<OutputV>) -> (SettingsV, bool) {
    if s.selected is None {
        (s, false)
    } else {
        let sel = s.selected->0;
        if (sel as int) < s.presets.len() {
            let p0 = s.presets[sel as int];
            let p1 = PresetV { volume_type: s.volume_type, ..p0 };
            let s1 = SettingsV { presets: s.presets.update(sel as int, p1), ..s };
            if !(s.volume_type is Preset) {
                (s1, false)
            } else if s.volume_output_id is None {
                (s1, false)
            } else {
                let vid = s.volume_output_id->0;
                if kv_lookup(p1.volumes, vid) is Some {
                    // a level was captured before: the entered text decides
                    if int_text_valid(s.volume_level) && i32::MIN <= int_text_val(s.volume_level)
                        <= i32::MAX {
                        let level = int_text_val(s.volume_level) as i32;
                        let p2 = PresetV { volumes: kv_store(p1.volumes, vid, level), ..p1 };
                        (SettingsV { presets: s.presets.update(sel as int, p2), ..s1 }, true)
                    } else {
                        (s1, false)
                    }
                } else if outputs_has(outs, vid) {
                    // no captured level yet: the field is seeded from the
                    // live level, which is then recorded as entered
                    let live = outs[output_index(outs, vid)].volume.value;
                    let p2 = PresetV { volumes: kv_store(p1.volumes, vid, live), ..p1 };
                    (
                        SettingsV {
                            volume_level: int_text(live as int),
                            presets: s.presets.update(sel as int, p2),
                            ..s1
                        },
                        true,
                    )
                } else {
                    (s1, false)
                }
            }
        } else {
            (s, false)
        }
    }
}

/// Stores the volume field into the selected preset.
pub fn store_volume(settings: &mut GroupingSettings, outputs: &Vec<Output>) -> (r: Option<()>)
    requires
        wf_settings_volumes(old(settings)@),
        outputs_unique(outputs.deep_view()),
    ensures
        final(settings)@ == store_volume_spec(old(settings)@, outputs.deep_view()).0,
        (r is Some) == store_volume_spec(old(settings)@, outputs.deep_view()).1,
        wf_settings_volumes(final(settings)@),
{
    let ghost s0 = old(settings)@;
    let ghost outsv = outputs.deep_view();
    let sel = match settings.selected {
        Some(sel) => sel,
        None => {
            return None;
        },
    };
    if sel >= settings.presets.len() {
        return None;
    }
    let mut preset = settings.presets[sel].clone();
    preset.volume_type = settings.volume_type;
    settings.presets[sel] = preset.clone();
    let ghost p1 = preset@;
    let ghost s1 = SettingsV { presets: s0.presets.update(sel as int, p1), ..s0 };
    proof {
        assert(settings@ =~= s1);
    }
    let is_preset_mode = match settings.volume_type {
        VolumeType::Preset => true,
        _ => false,
    };
    if !is_preset_mode {
        return None;
    }
    let vid = match &settings.volume_output_id {
        Some(v) => v.clone(),
        None => {
            return None;
        },
    };
    if kv_get(&preset.volumes, &vid).is_none() {
        match find_output(outputs, &vid) {
            None => {
                return None;
            },
            Some(oi) => {
                settings.volume_level = i32_to_string(outputs[oi].volume.value);
                proof {
                    assert(outputs.deep_view()[oi as int] == outputs[oi as int]@);
                    lemma_int_text_round_trip(outputs[oi as int].volume.value as int);
                }
            },
        }
    }
    let ghost s2 = settings@;
    match parse_i32(settings.volume_level.as_str()) {
        Some(level) => {
            kv_set(&mut preset.volumes, &vid, level);
            settings.presets[sel] = preset;
            proof {
                assert(settings@.presets =~= store_volume_spec(s0, outsv).0.presets);
                assert(settings@ =~= store_volume_spec(s0, outsv).0);
                assert forall|i: int|
                    0 <= i < settings@.presets.len() implies kv_unique(
                    #[trigger] settings@.presets[i].volumes,
                ) by {
                    if i != sel {
                        assert(settings@.presets[i] == s0.presets[i]);
                    }
                }
            }
            Some(())
        },
        None => {
            proof {
                assert(settings@ =~= store_volume_spec(s0, outsv).0);
            }
            None
        },
    }
}

/// What loading the selected preset into the edit form does.  A stored
/// preset repopulates the form, resets the action to Edit, seeds the
/// candidate field with the loaded set's first output, and shows or
/// captures its volume level; the sentinel slot falls back to the
/// extracted ad-hoc preset when one exists, and otherwise blanks the form
/// for a genuinely new preset.
pub open spec fn load_preset_spec(s: SettingsV, outs: Seq<OutputV>) -> SettingsV {
    if s.selected is None {
        s
    } else {
        let sel = s.selected->0;
        if (sel as int) < s.presets.len() {
            let p = s.presets[sel as int];
            let s1 = SettingsV {
                name: p.name,
                primary_output_id: Some(p.output_ids[0]),
                output_ids: p.output_ids,
                action: Action::Edit,
                add: Some(p.output_ids[0]),
                ..s
            };
            if s.volume_output_id is Some {
                let vid = s.volume_output_id->0;
                if kv_lookup(p.volumes, vid) is Some {
                    SettingsV {
                        volume_level: int_text(kv_lookup(p.volumes, vid)->0 as int),
                        ..s1
                    }
                } else if outputs_has(outs, vid) {
                    let lv = outs[output_index(outs, vid)].volume.value;
                    let p2 = PresetV { volumes: kv_store(p.volumes, vid, lv), ..p };
                    SettingsV {
                        presets: s.presets.update(sel as int, p2),
                        volume_level: int_text(lv as int),
                        ..s1
                    }
                } else {
                    s1
                }
            } else {
                s1
            }
        } else if s.extracted_preset is Some {
            let p = s.extracted_preset->0;
            SettingsV {
                name: p.name,
                primary_output_id: Some(p.output_ids[0]),
                output_ids: p.output_ids,
                action: Action::Edit,
                add: Some(p.output_ids[0]),
                ..s
            }
        } else {
            SettingsV {
                name: Seq::empty(),
                primary_output_id: None,
                output_ids: Seq::empty(),
                action: Action::Edit,
                add: None,
                ..s
            }
        }
    }
}

/// Repopulates the edit form from the selected preset (or the extracted
/// ad-hoc grouping, or a blank form) after the selection changed,
/// resetting the action to Edit and seeding the candidate output.
pub fn load_preset(settings: &mut GroupingSettings, outputs: &Vec<Output>)
    requires
        wf_settings_volumes(old(settings)@),
        outputs_unique(outputs.deep_view()),
        (match old(settings)@.selected {
            Some(sel) => {
                &&& (sel as int) < old(settings)@.presets.len()
                    ==> old(settings)@.presets[sel as int].output_ids.len() >= 1
                &&& ((sel as int) >= old(settings)@.presets.len() && old(
                    settings,
                )@.extracted_preset is Some)
                    ==> old(settings)@.extracted_preset->0.output_ids.len() >= 1
            },
            None => true,
        }),
    ensures
        final(settings)@ == load_preset_spec(old(settings)@, outputs.deep_view()),
        wf_settings_volumes(final(settings)@),
{
    let ghost s0 = old(settings)@;
    let ghost outsv = outputs.deep_view();
    let sel = match settings.selected {
        Some(sel) => sel,
        None => {
            return ;
        },
    };
    if sel < settings.presets.len() {
        let preset = settings.presets[sel].clone();
        settings.name = preset.name.clone();
        settings.primary_output_id = Some(preset.output_ids[0].clone());
        settings.output_ids = clone_string_vec(&preset.output_ids);
        settings.action = Action::Edit;
        settings.add = Some(preset.output_ids[0].clone());
        let vid = match &settings.volume_output_id {
            Some(v) => v.clone(),
            None => {
                proof {
                    assert(settings@ =~= load_preset_spec(s0, outsv));
                }
                return ;
            },
        };
        match kv_get(&preset.volumes, &vid) {
            Some(level) => {
                settings.volume_level = i32_to_string(level);
                proof {
                    assert(settings@ =~= load_preset_spec(s0, outsv));
                }
            },
            None => {
                match find_output(outputs, &vid) {
                    Some(oi) => {
                        let level = outputs[oi].volume.value;
                        let mut updated = preset;
                        kv_set(&mut updated.volumes, &vid, level);
                        settings.presets[sel] = updated;
                        settings.volume_level = i32_to_string(level);
                        proof {
                            assert(outputs.deep_view()[oi as int] == outputs[oi as int]@);
                            assert(settings@.presets =~= load_preset_spec(s0, outsv).presets);
                            assert(settings@ =~= load_preset_spec(s0, outsv));
                            assert forall|i: int|
                                0 <= i < settings@.presets.len() implies kv_unique(
                                #[trigger] settings@.presets[i].volumes,
                            ) by {
                                if i != sel {
                                    assert(settings@.presets[i] == s0.presets[i]);
                                }
                            }
                        }
                    },
                    None => {
                        proof {
                            assert(settings@ =~= load_preset_spec(s0, outsv));
                        }
                    },
                }
            },
        }
    } else {
        let extracted = match &settings.extracted_preset {
            Some(p) => Some(p.clone()),
            None => None,
        };
        match extracted {
            Some(p) => {
                settings.name = p.name.clone();
                settings.primary_output_id = Some(p.output_ids[0].clone());
                settings.output_ids = clone_string_vec(&p.output_ids);
                settings.action = Action::Edit;
                settings.add = Some(p.output_ids[0].clone());
                proof {
                    assert(settings@ =~= load_preset_spec(s0, outsv));
                }
            },
            None => {
                settings.name = String::new();
                settings.primary_output_id = None;
                settings.output_ids = Vec::new();
                settings.action = Action::Edit;
                settings.add = None;
                proof {
                    assert(settings@.output_ids =~= Seq::<Seq<char>>::empty());
                    assert(settings@ =~= load_preset_spec(s0, outsv));
                }
            },
        }
    }
}

} // verus!
