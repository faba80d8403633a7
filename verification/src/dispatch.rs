//! Action dispatcher: the decision layer of the event loop.  Each entry
//! point takes the session state and one event and returns the new state,
//! the transport commands to issue in order, and the status text to show;
//! the surrounding process performs the transport and status calls.

use vstd::prelude::*;
use crate::model::{
    GroupingSettings, Output, OutputV, Preset, PresetV, SettingsV, Action, VolumeType, Zone, ZoneV,
    kv_store, kv_unique, outputs_has, outputs_unique, output_index, find_output, kv_set,
    clone_string_vec, clone_opt_string, opt_usize_eq, opt_string_eq, lemma_vec_deep_view_push,
    lemma_vec_deep_view_remove, lemma_vec_deep_view_update,
};
use crate::matcher::{zone_matches, match_preset, extract_preset, extract_from};
use crate::reducer::{
    wf_settings_volumes, store_preset, store_volume, load_preset, store_preset_spec,
    store_volume_spec, load_preset_spec,
};
use crate::layout::{Layout, make_layout, layout_inputs_ok, layout_items, layout_has_error};

verus! {

/// One command to the transport collaborator.
pub enum TransportCommand {
    Ungroup(Vec<String>),
    ChangeVolume { output_id: String, value: i32 },
    Group(Vec<String>),
    RefreshZones,
}

#[verifier::ext_equal]
pub enum TransportCommandV {
    Ungroup(Seq<Seq<char>>),
    ChangeVolume(Seq<char>, i32),
    Group(Seq<Seq<char>>),
    RefreshZones,
}

impl View for TransportCommand {
    type V = TransportCommandV;

    open spec fn view(&self) -> TransportCommandV {
        match self {
            TransportCommand::Ungroup(ids) => TransportCommandV::Ungroup(ids.deep_view()),
            TransportCommand::ChangeVolume { output_id, value } => TransportCommandV::ChangeVolume(
                output_id@,
                *value,
            ),
            TransportCommand::Group(ids) => TransportCommandV::Group(ids.deep_view()),
            TransportCommand::RefreshZones => TransportCommandV::RefreshZones,
        }
    }
}

impl DeepView for TransportCommand {
    type V = TransportCommandV;

    open spec fn deep_view(&self) -> TransportCommandV {
        self.view()
    }
}

/// The status line shown while no preset is recognised.
pub open spec fn no_preset_status() -> Seq<char> {
    "No preset active"@
}

pub fn no_preset_status_string() -> (r: String)
    ensures
        r@ == no_preset_status(),
{
    "No preset active".to_owned()
}

/// Status for a recognised grouping.
pub open spec fn match_status(zone_name: Seq<char>, preset_name: Seq<char>) -> Seq<char> {
    "Grouped zone \""@ + zone_name + "\" represents the \""@ + preset_name + "\" preset"@
}

pub fn match_status_string(zone_name: &String, preset_name: &String) -> (r: String)
    ensures
        r@ == match_status(zone_name@, preset_name@),
{
    let mut s = "Grouped zone \"".to_owned();
    s.append(zone_name.as_str());
    s.append("\" represents the \"");
    s.append(preset_name.as_str());
    s.append("\" preset");
    proof {
        assert(s@ =~= match_status(zone_name@, preset_name@));
    }
    s
}

pub open spec fn activated_status(name: Seq<char>) -> Seq<char> {
    "Preset \""@ + name + "\" activated"@
}

pub fn activated_status_string(name: &String) -> (r: String)
    ensures
        r@ == activated_status(name@),
{
    let mut s = "Preset \"".to_owned();
    s.append(name.as_str());
    s.append("\" activated");
    proof {
        assert(s@ =~= activated_status(name@));
    }
    s
}

pub open spec fn deactivated_status(name: Seq<char>) -> Seq<char> {
    "Preset \""@ + name + "\" deactivated"@
}

pub fn deactivated_status_string(name: &String) -> (r: String)
    ensures
        r@ == deactivated_status(name@),
{
    let mut s = "Preset \"".to_owned();
    s.append(name.as_str());
    s.append("\" deactivated");
    proof {
        assert(s@ =~= deactivated_status(name@));
    }
    s
}

pub open spec fn deleted_status(name: Seq<char>) -> Seq<char> {
    "Preset \""@ + name + "\" deleted"@
}

pub fn deleted_status_string(name: &String) -> (r: String)
    ensures
        r@ == deleted_status(name@),
{
    let mut s = "Preset \"".to_owned();
    s.append(name.as_str());
    s.append("\" deleted");
    proof {
        assert(s@ =~= deleted_status(name@));
    }
    s
}

pub open spec fn settings_saved_status() -> Seq<char> {
    "Settings saved"@
}

/// What a topology update decides.
pub struct ZonesOutcome {
    pub matched_zone_id: Option<String>,
    pub status: Option<String>,
}

/// Some preset is realised by some live zone.
pub open spec fn zone_match_exists(presets: Seq<PresetV>, zones: Seq<ZoneV>) -> bool {
    exists|p: int, z: int|
        0 <= p < presets.len() && 0 <= z < zones.len() && zone_matches(presets[p], zones[z])
}

/// On a zones update: when no zone is matched yet, look for the first
/// preset/zone match, record its zone id and announce it; always recompute
/// the extracted ad-hoc preset from the new zone list.
pub fn handle_zones(
    settings: &mut GroupingSettings,
    matched_zone_id: Option<String>,
    zones: &Vec<Zone>,
) -> (r: ZonesOutcome)
    ensures
        final(settings)@ == (SettingsV {
            extracted_preset: extract_from(zones.deep_view(), 0),
            ..old(settings)@
        }),
        matched_zone_id is Some ==> r.matched_zone_id.deep_view() == matched_zone_id.deep_view()
            && r.status is None,
        matched_zone_id is None && !zone_match_exists(
            old(settings)@.presets,
            zones.deep_view(),
        ) ==> r.matched_zone_id is None && r.status is None,
        matched_zone_id is None && zone_match_exists(old(settings)@.presets, zones.deep_view())
            ==> exists|p: int, z: int|
            {
                &&& 0 <= p < old(settings)@.presets.len()
                &&& 0 <= z < zones.deep_view().len()
                &&& zone_matches(old(settings)@.presets[p], zones.deep_view()[z])
                &&& (forall|p2: int, z2: int|
                    0 <= p2 < p && 0 <= z2 < zones.deep_view().len() ==> !zone_matches(
                        old(settings)@.presets[p2],
                        zones.deep_view()[z2],
                    ))
                &&& (forall|z2: int|
                    0 <= z2 < z ==> !zone_matches(
                        old(settings)@.presets[p],
                        zones.deep_view()[z2],
                    ))
                &&& r.matched_zone_id.deep_view() == Some(zones.deep_view()[z].zone_id)
                &&& r.status.deep_view() == Some(
                    match_status(
                        zones.deep_view()[z].display_name,
                        old(settings)@.presets[p].name,
                    ),
                )
            },
{
    let ghost s0 = old(settings)@;
    let mut out_matched = matched_zone_id;
    let mut status: Option<String> = None;
    if out_matched.is_none() {
        match match_preset(&settings.presets, zones) {
            Some(pz) => {
                let (pi, zi) = pz;
                status = Some(
                    match_status_string(&zones[zi].display_name, &settings.presets[pi].name),
                );
                out_matched = Some(zones[zi].zone_id.clone());
                proof {
                    assert(zones.deep_view()[zi as int] == zones[zi as int]@);
                    assert(s0.presets[pi as int] == settings.presets[pi as int]@);
                }
            },
            None => {},
        }
    }
    settings.extracted_preset = extract_preset(zones);
    proof {
        assert(settings@ =~= (SettingsV {
            extracted_preset: extract_from(zones.deep_view(), 0),
            ..s0
        }));
    }
    ZonesOutcome { matched_zone_id: out_matched, status }
}

/// On a zones-removed notification: when the matched zone is among the
/// removed ids, clear the match and reset the status line.
pub fn handle_zones_removed(matched_zone_id: Option<String>, removed_zone_ids: &Vec<String>) -> (r:
    (Option<String>, Option<String>))
    ensures
        match matched_zone_id {
            Some(z) => {
                if removed_zone_ids.deep_view().contains(z@) {
                    r.0 is None && r.1.deep_view() == Some(no_preset_status())
                } else {
                    r.0.deep_view() == Some(z@) && r.1 is None
                }
            },
            None => r.0 is None && r.1 is None,
        },
{
    match matched_zone_id {
        Some(z) => {
            if crate::model::contains_id(removed_zone_ids, &z) {
                (None, Some(no_preset_status_string()))
            } else {
                (Some(z), None)
            }
        },
        None => (None, None),
    }
}

/// The cache after upserting one reported output: an already known id is
/// updated in place, a new one is appended.
pub open spec fn upsert_one(outs: Seq<OutputV>, o: OutputV) -> Seq<OutputV> {
    if outputs_has(outs, o.output_id) {
        outs.update(output_index(outs, o.output_id), o)
    } else {
        outs.push(o)
    }
}

/// The cache after upserting the first `i` reported outputs in order.
pub open spec fn upsert_upto(outs: Seq<OutputV>, reported: Seq<OutputV>, i: int) -> Seq<OutputV>
    decreases i,
{
    if i <= 0 {
        outs
    } else {
        upsert_one(upsert_upto(outs, reported, i - 1), reported[i - 1])
    }
}

/// Upserting keeps output ids unique.
pub proof fn lemma_upsert_one_unique(outs: Seq<OutputV>, o: OutputV)
    requires
        outputs_unique(outs),
    ensures
        outputs_unique(upsert_one(outs, o)),
{
    let r = upsert_one(outs, o);
    if outputs_has(outs, o.output_id) {
        let j = output_index(outs, o.output_id);
        assert(0 <= j < outs.len() && outs[j].output_id == o.output_id);
        assert forall|a: int, b: int| 0 <= a < b < r.len() implies r[a].output_id
            != r[b].output_id by {
            assert(a == j || r[a] == outs[a]);
            assert(b == j || r[b] == outs[b]);
        }
    } else {
        assert forall|a: int, b: int| 0 <= a < b < r.len() implies r[a].output_id
            != r[b].output_id by {
            if b == outs.len() {
                assert(r[a] == outs[a]);
                if outs[a].output_id == o.output_id {
                    assert(outputs_has(outs, o.output_id));
                }
            }
        }
    }
}

/// On an outputs update: upsert each reported output into the cache by id.
pub fn handle_outputs(cache: &mut Vec<Output>, reported: &Vec<Output>)
    requires
        outputs_unique(old(cache).deep_view()),
    ensures
        final(cache).deep_view() == upsert_upto(
            old(cache).deep_view(),
            reported.deep_view(),
            reported.deep_view().len() as int,
        ),
        outputs_unique(final(cache).deep_view()),
{
    let ghost c0 = old(cache).deep_view();
    let ghost rep = reported.deep_view();
    let mut i: usize = 0;
    while i < reported.len()
        invariant
            c0 == old(cache).deep_view(),
            rep == reported.deep_view(),
            i <= reported.len(),
            cache.deep_view() == upsert_upto(c0, rep, i as int),
            outputs_unique(cache.deep_view()),
        decreases reported.len() - i,
    {
        let o = reported[i].clone();
        proof {
            assert(o@ == rep[i as int]);
            lemma_upsert_one_unique(cache.deep_view(), o@);
        }
        match find_output(cache, &o.output_id) {
            Some(j) => {
                let ghost prev = *cache;
                cache[j] = o;
                proof {
                    lemma_vec_deep_view_update(prev, *cache, j as int);
                    assert(cache.deep_view() =~= upsert_one(prev.deep_view(), rep[i as int]));
                    assert(cache.deep_view() =~= upsert_upto(c0, rep, i + 1));
                }
            },
            None => {
                let ghost prev = *cache;
                cache.push(o);
                proof {
                    lemma_vec_deep_view_push(prev, *cache);
                    assert(cache.deep_view() =~= upsert_one(prev.deep_view(), rep[i as int]));
                    assert(cache.deep_view() =~= upsert_upto(c0, rep, i + 1));
                }
            },
        }
        i = i + 1;
    }
    proof {
        assert(cache.deep_view() == upsert_upto(c0, rep, rep.len() as int));
    }
}

/// The delete stage of a save request: under the Delete action with an
/// existing preset selected, remove it and clear the selection.
pub open spec fn delete_spec(s: SettingsV) -> SettingsV {
    if s.action == Action::Delete && s.selected is Some && (s.selected->0 as int)
        < s.presets.len() {
        SettingsV { presets: s.presets.remove(s.selected->0 as int), selected: None, ..s }
    } else {
        s
    }
}

/// The submitted selection pair differs from the one of the prior round
/// trip.
pub open spec fn pair_changed(s: SettingsV, last: (Option<usize>, Option<Seq<char>>)) -> bool {
    s.selected != last.0 || s.volume_output_id != last.1
}

/// The reduced state of a save request: delete stage, then either a
/// context switch (reload the edit form) or an active edit (store the
/// preset, then the volume).
pub open spec fn save_reduce(
    s: SettingsV,
    outs: Seq<OutputV>,
    last: (Option<usize>, Option<Seq<char>>),
) -> SettingsV {
    let s1 = delete_spec(s);
    if pair_changed(s1, last) {
        load_preset_spec(s1, outs)
    } else {
        store_volume_spec(store_preset_spec(s1).0, outs).0
    }
}

/// What a save request presupposes: valid volume keys, a unique cache,
/// the loaded preset shapes that `load_preset` dereferences, and a
/// renderable reduced state.
pub open spec fn save_request_ok(
    s: SettingsV,
    outs: Seq<OutputV>,
    last: (Option<usize>, Option<Seq<char>>),
) -> bool {
    let s1 = delete_spec(s);
    &&& wf_settings_volumes(s)
    &&& outputs_unique(outs)
    &&& (pair_changed(s1, last) ==> match s1.selected {
        Some(sel) => {
            &&& ((sel as int) < s1.presets.len() ==> s1.presets[sel as int].output_ids.len()
                >= 1)
            &&& (((sel as int) >= s1.presets.len() && s1.extracted_preset is Some)
                ==> s1.extracted_preset->0.output_ids.len() >= 1)
        },
        None => true,
    })
    &&& layout_inputs_ok(save_reduce(s, outs, last), outs)
}

/// Tests the whole save-request precondition on live data, replaying the
/// delete stage and the reducers on a copy, so that a caller can refuse a
/// submission rather than feed an unservable one to `handle_save_request`.
pub fn save_request_check(
    settings: &GroupingSettings,
    outputs: &Vec<Output>,
    last_selected: &(Option<usize>, Option<String>),
) -> (r: bool)
    ensures
        r == save_request_ok(
            settings@,
            outputs.deep_view(),
            (last_selected.0, last_selected.1.deep_view()),
        ),
{
    let ghost s0 = settings@;
    let ghost outs = outputs.deep_view();
    let ghost last = (last_selected.0, last_selected.1.deep_view());
    if !crate::reducer::settings_volumes_check(settings) {
        return false;
    }
    if !crate::model::outputs_unique_check(outputs) {
        return false;
    }
    let mut probe = settings.clone();
    let is_delete = match probe.action {
        Action::Delete => true,
        _ => false,
    };
    if is_delete {
        if let Some(index) = probe.selected {
            if index < probe.presets.len() {
                let ghost prev = probe.presets;
                probe.presets.remove(index);
                probe.selected = None;
                proof {
                    lemma_vec_deep_view_remove(prev, probe.presets, index as int);
                    assert(probe@ =~= delete_spec(s0));
                }
            }
        }
    }
    proof {
        assert(probe@ =~= delete_spec(s0));
        assert(wf_settings_volumes(probe@)) by {
            assert forall|k: int| 0 <= k < probe@.presets.len() implies kv_unique(
                #[trigger] probe@.presets[k].volumes,
            ) by {
                if s0.action == Action::Delete && s0.selected is Some && (s0.selected->0 as int)
                    < s0.presets.len() {
                    let j = s0.selected->0 as int;
                    if k < j {
                        assert(probe@.presets[k] == s0.presets[k]);
                    } else {
                        assert(probe@.presets[k] == s0.presets[k + 1]);
                    }
                }
            }
        }
    }
    let pair_same = opt_usize_eq(&probe.selected, &last_selected.0) && opt_string_eq(
        &probe.volume_output_id,
        &last_selected.1,
    );
    if !pair_same {
        let shapes_ok = match probe.selected {
            Some(sel) => {
                if sel < probe.presets.len() {
                    probe.presets[sel].output_ids.len() >= 1
                } else {
                    match &probe.extracted_preset {
                        Some(p) => p.output_ids.len() >= 1,
                        None => true,
                    }
                }
            },
            None => true,
        };
        if !shapes_ok {
            return false;
        }
        load_preset(&mut probe, outputs);
    } else {
        store_preset(&mut probe);
        store_volume(&mut probe, outputs);
    }
    proof {
        assert(probe@ == save_reduce(s0, outs, last));
    }
    crate::layout::layout_inputs_check(&probe, outputs)
}

/// Applies a submitted save request: the delete stage, then reload or
/// store depending on whether the selection pair changed, then the
/// rendered form.  Returns the form and the new last-selected pair.
pub fn handle_save_request(
    settings: GroupingSettings,
    outputs: &Vec<Output>,
    last_selected: &(Option<usize>, Option<String>),
) -> (r: (Layout, (Option<usize>, Option<String>)))
    requires
        save_request_ok(
            settings@,
            outputs.deep_view(),
            (last_selected.0, last_selected.1.deep_view()),
        ),
    ensures
        ({
            let s2 = save_reduce(
                settings@,
                outputs.deep_view(),
                (last_selected.0, last_selected.1.deep_view()),
            );
            &&& r.0.settings@ == s2
            &&& r.0.widgets.deep_view() == layout_items(s2, outputs.deep_view())
            &&& r.0.has_error == layout_has_error(s2, outputs.deep_view())
        }),
        r.1.0 == delete_spec(settings@).selected,
        r.1.1.deep_view() == delete_spec(settings@).volume_output_id,
        wf_settings_volumes(r.0.settings@),
{
    let ghost s0 = settings@;
    let ghost outs = outputs.deep_view();
    let ghost last = (last_selected.0, last_selected.1.deep_view());
    let mut settings = settings;
    let is_delete = match settings.action {
        Action::Delete => true,
        _ => false,
    };
    if is_delete {
        if let Some(index) = settings.selected {
            if index < settings.presets.len() {
                let ghost prev = settings.presets;
                settings.presets.remove(index);
                settings.selected = None;
                proof {
                    lemma_vec_deep_view_remove(prev, settings.presets, index as int);
                    assert(settings@ =~= delete_spec(s0));
                }
            }
        }
    }
    proof {
        assert(settings@ =~= delete_spec(s0));
        assert(wf_settings_volumes(settings@)) by {
            assert forall|k: int| 0 <= k < settings@.presets.len() implies kv_unique(
                #[trigger] settings@.presets[k].volumes,
            ) by {
                if s0.action == Action::Delete && s0.selected is Some && (s0.selected->0 as int)
                    < s0.presets.len() {
                    let j = s0.selected->0 as int;
                    if k < j {
                        assert(settings@.presets[k] == s0.presets[k]);
                    } else {
                        assert(settings@.presets[k] == s0.presets[k + 1]);
                    }
                }
            }
        }
    }
    let pair_same = opt_usize_eq(&settings.selected, &last_selected.0) && opt_string_eq(
        &settings.volume_output_id,
        &last_selected.1,
    );
    let new_last = (settings.selected, clone_opt_string(&settings.volume_output_id));
    if !pair_same {
        load_preset(&mut settings, outputs);
    } else {
        store_preset(&mut settings);
        store_volume(&mut settings, outputs);
    }
    let layout = make_layout(settings, outputs);
    (layout, new_last)
}

/// The selected preset after capturing the live level of each cached
/// member output among `ids[0 .. i]`.
pub open spec fn capture_upto(p: PresetV, outs: Seq<OutputV>, ids: Seq<Seq<char>>, i: int) -> PresetV
    decreases i,
{
    if i <= 0 {
        p
    } else {
        let q = capture_upto(p, outs, ids, i - 1);
        let id = ids[i - 1];
        if outputs_has(outs, id) {
            PresetV {
                volumes: kv_store(q.volumes, id, outs[output_index(outs, id)].volume.value),
                ..q
            }
        } else {
            q
        }
    }
}

/// The settings after a confirmed save: under Deactivate with the LastUsed
/// policy, the selected preset captures each member's live level.
pub open spec fn saved_settings_spec(s: SettingsV, outs: Seq<OutputV>) -> SettingsV {
    if s.selected is Some && s.primary_output_id is Some && s.action == Action::Deactivate
        && (s.selected->0 as int) < s.presets.len() && s.presets[s.selected->0 as int].volume_type
        == VolumeType::LastUsed {
        let sel = s.selected->0 as int;
        SettingsV {
            presets: s.presets.update(
                sel,
                capture_upto(s.presets[sel], outs, s.output_ids, s.output_ids.len() as int),
            ),
            ..s
        }
    } else {
        s
    }
}

/// The volume commands for the captured levels, in list order.
pub open spec fn volume_commands(volumes: Seq<(Seq<char>, i32)>, i: int) -> Seq<TransportCommandV>
    decreases i,
{
    if i <= 0 {
        Seq::empty()
    } else {
        volume_commands(volumes, i - 1).push(
            TransportCommandV::ChangeVolume(volumes[i - 1].0, volumes[i - 1].1),
        )
    }
}

/// The transport commands a confirmed save issues, in order.  Activate
/// first ungroups any live ad-hoc grouping, applies the captured levels
/// unless the policy is Untouched, then groups; Deactivate ungroups;
/// Edit requests a fresh zone snapshot; Delete issues nothing.
pub open spec fn saved_commands_spec(s: SettingsV) -> Seq<TransportCommandV> {
    if s.selected is Some && s.primary_output_id is Some {
        match s.action {
            Action::Activate => {
                let pre = if s.extracted_preset is Some {
                    seq![TransportCommandV::Ungroup(s.extracted_preset->0.output_ids)]
                } else {
                    Seq::empty()
                };
                let sel = s.selected->0 as int;
                let vols = if sel < s.presets.len() && !(s.presets[sel].volume_type
                    is Untouched) {
                    volume_commands(s.presets[sel].volumes, s.presets[sel].volumes.len() as int)
                } else {
                    Seq::empty()
                };
                pre + vols + seq![TransportCommandV::Group(s.output_ids)]
            },
            Action::Deactivate => seq![TransportCommandV::Ungroup(s.output_ids)],
            Action::Edit => seq![TransportCommandV::RefreshZones],
            Action::Delete => Seq::empty(),
        }
    } else {
        Seq::empty()
    }
}

/// The status a confirmed save reports.
pub open spec fn saved_status_spec(s: SettingsV) -> Seq<char> {
    if s.action == Action::Delete {
        deleted_status(s.name)
    } else if s.selected is Some && s.primary_output_id is Some {
        match s.action {
            Action::Activate => activated_status(s.name),
            Action::Deactivate => deactivated_status(s.name),
            _ => settings_saved_status(),
        }
    } else {
        settings_saved_status()
    }
}

/// The match handle is stale after a delete or a rename.
pub open spec fn clear_matched_spec(prior_name: Seq<char>, s: SettingsV) -> bool {
    s.action == Action::Delete || prior_name != s.name
}

/// What a confirmed save decides.
pub struct SavedOutcome {
    pub settings: GroupingSettings,
    pub commands: Vec<TransportCommand>,
    pub status: String,
    pub clear_matched: bool,
}

/// Applies a confirmed save: captures last-used levels under Deactivate,
/// lists the transport commands in issue order, picks the status line, and
/// says whether the matched-zone handle must be cleared.
pub fn apply_settings_saved(
    prior_name: &String,
    settings: GroupingSettings,
    outputs: &Vec<Output>,
) -> (r: SavedOutcome)
    requires
        wf_settings_volumes(settings@),
        outputs_unique(outputs.deep_view()),
    ensures
        r.settings@ == saved_settings_spec(settings@, outputs.deep_view()),
        r.commands.deep_view() == saved_commands_spec(settings@),
        r.status@ == saved_status_spec(settings@),
        r.clear_matched == clear_matched_spec(prior_name@, settings@),
        wf_settings_volumes(r.settings@),
{
    let ghost s0 = settings@;
    let ghost outs = outputs.deep_view();
    let mut settings = settings;
    let mut commands: Vec<TransportCommand> = Vec::new();
    let mut status = "Settings saved".to_owned();
    let is_delete = match settings.action {
        Action::Delete => true,
        _ => false,
    };
    let sel_and_primary = settings.selected.is_some() && settings.primary_output_id.is_some();
    if sel_and_primary {
        match settings.action {
            Action::Activate => {
                if let Some(ex) = &settings.extracted_preset {
                    let ghost prev = commands;
                    commands.push(TransportCommand::Ungroup(clone_string_vec(&ex.output_ids)));
                    proof {
                        lemma_vec_deep_view_push(prev, commands);
                        assert(commands.deep_view() =~= seq![
                            TransportCommandV::Ungroup(s0.extracted_preset->0.output_ids),
                        ]);
                    }
                }
                let ghost pre = commands.deep_view();
                let sel = match settings.selected {
                    Some(x) => x,
                    None => unreached(),
                };
                if sel < settings.presets.len() {
                    let untouched = match settings.presets[sel].volume_type {
                        VolumeType::Untouched => true,
                        _ => false,
                    };
                    if !untouched {
                        let ghost vols = s0.presets[sel as int].volumes;
                        let mut i: usize = 0;
                        while i < settings.presets[sel].volumes.len()
                            invariant
                                s0 == settings@,
                                sel < settings.presets@.len(),
                                vols == s0.presets[sel as int].volumes,
                                i <= vols.len(),
                                commands.deep_view() =~= pre + volume_commands(vols, i as int),
                            decreases settings.presets[sel as int].volumes.len() - i,
                        {
                            let key = settings.presets[sel].volumes[i].0.clone();
                            let value = settings.presets[sel].volumes[i].1;
                            let ghost prev = commands;
                            commands.push(
                                TransportCommand::ChangeVolume { output_id: key, value },
                            );
                            proof {
                                lemma_vec_deep_view_push(prev, commands);
                                assert(vols[i as int]
                                    == settings.presets@[sel as int].volumes@[i as int].deep_view());
                                assert(commands.deep_view() =~= pre + volume_commands(vols, i
                                    + 1));
                            }
                            i = i + 1;
                        }
                    }
                }
                let ghost prev = commands;
                commands.push(TransportCommand::Group(clone_string_vec(&settings.output_ids)));
                proof {
                    lemma_vec_deep_view_push(prev, commands);
                    assert(commands.deep_view() =~= saved_commands_spec(s0));
                }
                status = activated_status_string(&settings.name);
            },
            Action::Deactivate => {
                let sel = match settings.selected {
                    Some(x) => x,
                    None => unreached(),
                };
                if sel < settings.presets.len() {
                    let last_used = match settings.presets[sel].volume_type {
                        VolumeType::LastUsed => true,
                        _ => false,
                    };
                    if last_used {
                        let mut preset = settings.presets[sel].clone();
                        let ghost p0 = s0.presets[sel as int];
                        let mut i: usize = 0;
                        while i < settings.output_ids.len()
                            invariant
                                s0 == settings@,
                                outs == outputs.deep_view(),
                                outputs_unique(outs),
                                sel < settings.presets@.len(),
                                p0 == s0.presets[sel as int],
                                kv_unique(p0.volumes),
                                i <= settings.output_ids.len(),
                                preset@ == capture_upto(p0, outs, s0.output_ids, i as int),
                                kv_unique(preset@.volumes),
                            decreases settings.output_ids.len() - i,
                        {
                            let id = settings.output_ids[i].clone();
                            proof {
                                assert(id@ == s0.output_ids[i as int]);
                            }
                            match find_output(outputs, &id) {
                                Some(oi) => {
                                    let level = outputs[oi].volume.value;
                                    kv_set(&mut preset.volumes, &id, level);
                                    proof {
                                        assert(outs[oi as int] == outputs[oi as int]@);
                                        assert(preset@ =~= capture_upto(p0, outs, s0.output_ids, i
                                            + 1));
                                    }
                                },
                                None => {
                                    proof {
                                        assert(preset@ =~= capture_upto(p0, outs, s0.output_ids, i
                                            + 1));
                                    }
                                },
                            }
                            i = i + 1;
                        }
                        let ghost prevp = settings.presets;
                        let ghost pv = preset@;
                        settings.presets[sel] = preset;
                        proof {
                            lemma_vec_deep_view_update(prevp, settings.presets, sel as int);
                            assert(settings@.presets =~= saved_settings_spec(s0, outs).presets);
                            assert(settings@ =~= saved_settings_spec(s0, outs));
                        }
                    }
                }
                let ghost prev = commands;
                commands.push(
                    TransportCommand::Ungroup(clone_string_vec(&settings.output_ids)),
                );
                proof {
                    lemma_vec_deep_view_push(prev, commands);
                    assert(commands.deep_view() =~= saved_commands_spec(s0));
                }
                status = deactivated_status_string(&settings.name);
            },
            Action::Edit => {
                let ghost prev = commands;
                commands.push(TransportCommand::RefreshZones);
                proof {
                    lemma_vec_deep_view_push(prev, commands);
                    assert(commands.deep_view() =~= saved_commands_spec(s0));
                }
            },
            Action::Delete => {},
        }
    }
    if is_delete {
        status = deleted_status_string(&settings.name);
    }
    let clear_matched = is_delete || !(*prior_name == settings.name);
    proof {
        assert(commands.deep_view() =~= saved_commands_spec(s0));
        assert(settings@ =~= saved_settings_spec(s0, outs));
        assert forall|k: int| 0 <= k < settings@.presets.len() implies kv_unique(
            #[trigger] settings@.presets[k].volumes,
        ) by {
            if settings@.presets[k] == s0.presets[k] {
            }
        }
    }
    SavedOutcome { settings, commands, status, clear_matched }
}

/// The settings as persisted: the extracted ad-hoc preset is never written
/// to storage.
pub fn to_persisted(settings: &GroupingSettings) -> (r: GroupingSettings)
    ensures
        r@ == (SettingsV { extracted_preset: None, ..settings@ }),
{
    let mut r = settings.clone();
    r.extracted_preset = None;
    proof {
        assert(r@ =~= (SettingsV { extracted_preset: None, ..settings@ }));
    }
    r
}

} // verus!
