//! Data model: outputs and zones as reported by the transport layer, presets,
//! and the settings form state, together with their mathematical views.

use vstd::prelude::*;

verus! {

/// A volume range with the current level, as reported for an output.
#[derive(Clone, Copy, PartialEq, Eq, Structural, Debug)]
pub struct Volume {
    pub min: i32,
    pub max: i32,
    pub value: i32,
}

/// What a confirmed form submission asks for.
#[derive(Clone, Copy, PartialEq, Eq, Structural, Debug)]
pub enum Action {
    Edit,
    Activate,
    Deactivate,
    Delete,
}

/// Volume policy of a preset: leave levels alone, restore the last captured
/// levels, or apply fixed preset-stored levels.
#[derive(Clone, Copy, PartialEq, Eq, Structural, Debug)]
pub enum VolumeType {
    Untouched,
    LastUsed,
    Preset,
}

/// An addressable audio endpoint (read-only snapshot from the transport).
pub struct Output {
    pub output_id: String,
    pub display_name: String,
    pub can_group_with_output_ids: Vec<String>,
    pub volume: Volume,
}

/// Mathematical view of an `Output`.
#[verifier::ext_equal]
pub struct OutputV {
    pub output_id: Seq<char>,
    pub display_name: Seq<char>,
    pub can_group_with_output_ids: Seq<Seq<char>>,
    pub volume: Volume,
}

impl View for Output {
    type V = OutputV;

    open spec fn view(&self) -> OutputV {
        OutputV {
            output_id: self.output_id@,
            display_name: self.display_name@,
            can_group_with_output_ids: self.can_group_with_output_ids.deep_view(),
            volume: self.volume,
        }
    }
}

impl DeepView for Output {
    type V = OutputV;

    open spec fn deep_view(&self) -> OutputV {
        self.view()
    }
}

/// A live synchronized playback group (read-only snapshot).
pub struct Zone {
    pub zone_id: String,
    pub display_name: String,
    pub outputs: Vec<Output>,
}

/// Mathematical view of a `Zone`.
#[verifier::ext_equal]
pub struct ZoneV {
    pub zone_id: Seq<char>,
    pub display_name: Seq<char>,
    pub outputs: Seq<OutputV>,
}

impl View for Zone {
    type V = ZoneV;

    open spec fn view(&self) -> ZoneV {
        ZoneV {
            zone_id: self.zone_id@,
            display_name: self.display_name@,
            outputs: self.outputs.deep_view(),
        }
    }
}

impl DeepView for Zone {
    type V = ZoneV;

    open spec fn deep_view(&self) -> ZoneV {
        self.view()
    }
}

/// A persisted grouping recipe: an ordered set of outputs (the first one is
/// the primary), a volume policy, and the captured levels.
pub struct Preset {
    pub name: String,
    pub output_ids: Vec<String>,
    pub volume_type: VolumeType,
    pub volumes: Vec<(String, i32)>,
}

/// Mathematical view of a `Preset`.
#[verifier::ext_equal]
pub struct PresetV {
    pub name: Seq<char>,
    pub output_ids: Seq<Seq<char>>,
    pub volume_type: VolumeType,
    pub volumes: Seq<(Seq<char>, i32)>,
}

impl View for Preset {
    type V = PresetV;

    open spec fn view(&self) -> PresetV {
        PresetV {
            name: self.name@,
            output_ids: self.output_ids.deep_view(),
            volume_type: self.volume_type,
            volumes: self.volumes.deep_view(),
        }
    }
}

impl DeepView for Preset {
    type V = PresetV;

    open spec fn deep_view(&self) -> PresetV {
        self.view()
    }
}

/// The settings form state: the persisted preset list plus the in-flight
/// edit fields, round-tripped through the UI on each interaction.
pub struct GroupingSettings {
    pub selected: Option<usize>,
    pub action: Action,
    pub add: Option<String>,
    pub primary_output_id: Option<String>,
    pub volume_output_id: Option<String>,
    pub volume_level: String,
    pub name: String,
    pub output_ids: Vec<String>,
    pub volume_type: VolumeType,
    pub presets: Vec<Preset>,
    pub extracted_preset: Option<Preset>,
}

/// Mathematical view of `GroupingSettings`.
#[verifier::ext_equal]
pub struct SettingsV {
    pub selected: Option<usize>,
    pub action: Action,
    pub add: Option<Seq<char>>,
    pub primary_output_id: Option<Seq<char>>,
    pub volume_output_id: Option<Seq<char>>,
    pub volume_level: Seq<char>,
    pub name: Seq<char>,
    pub output_ids: Seq<Seq<char>>,
    pub volume_type: VolumeType,
    pub presets: Seq<PresetV>,
    pub extracted_preset: Option<PresetV>,
}

impl View for GroupingSettings {
    type V = SettingsV;

    open spec fn view(&self) -> SettingsV {
        SettingsV {
            selected: self.selected,
            action: self.action,
            add: self.add.deep_view(),
            primary_output_id: self.primary_output_id.deep_view(),
            volume_output_id: self.volume_output_id.deep_view(),
            volume_level: self.volume_level@,
            name: self.name@,
            output_ids: self.output_ids.deep_view(),
            volume_type: self.volume_type,
            presets: self.presets.deep_view(),
            extracted_preset: self.extracted_preset.deep_view(),
        }
    }
}

impl Default for Action {
    fn default() -> (r: Self)
        ensures
            r == Action::Edit,
    {
        Action::Edit
    }
}

impl Default for VolumeType {
    fn default() -> (r: Self)
        ensures
            r == VolumeType::Untouched,
    {
        VolumeType::Untouched
    }
}

/// The view of an all-default preset.
pub open spec fn preset_default_v() -> PresetV {
    PresetV {
        name: Seq::empty(),
        output_ids: Seq::empty(),
        volume_type: VolumeType::Untouched,
        volumes: Seq::empty(),
    }
}

impl Default for Preset {
    fn default() -> (r: Self)
        ensures
            r@ == preset_default_v(),
    {
        let r = Preset {
            name: String::new(),
            output_ids: Vec::new(),
            volume_type: VolumeType::Untouched,
            volumes: Vec::new(),
        };
        proof {
            assert(r@.output_ids =~= preset_default_v().output_ids);
            assert(r@.volumes =~= preset_default_v().volumes);
            assert(r@ =~= preset_default_v());
        }
        r
    }
}

/// The view of an all-default settings form: nothing selected, no presets.
pub open spec fn settings_default_v() -> SettingsV {
    SettingsV {
        selected: None,
        action: Action::Edit,
        add: None,
        primary_output_id: None,
        volume_output_id: None,
        volume_level: Seq::empty(),
        name: Seq::empty(),
        output_ids: Seq::empty(),
        volume_type: VolumeType::Untouched,
        presets: Seq::empty(),
        extracted_preset: None,
    }
}

impl Default for GroupingSettings {
    fn default() -> (r: Self)
        ensures
            r@ == settings_default_v(),
    {
        let r = GroupingSettings {
            selected: None,
            action: Action::Edit,
            add: None,
            primary_output_id: None,
            volume_output_id: None,
            volume_level: String::new(),
            name: String::new(),
            output_ids: Vec::new(),
            volume_type: VolumeType::Untouched,
            presets: Vec::new(),
            extracted_preset: None,
        };
        proof {
            assert(r@.output_ids =~= settings_default_v().output_ids);
            assert(r@.presets =~= settings_default_v().presets);
            assert(r@ =~= settings_default_v());
        }
        r
    }
}

/// Clones one string vector element by element, keeping the view.
pub fn clone_string_vec(v: &Vec<String>) -> (r: Vec<String>)
    ensures
        r.deep_view() == v.deep_view(),
{
    let mut r: Vec<String> = Vec::new();
    let mut i: usize = 0;
    while i < v.len()
        invariant
            i <= v.len(),
            r@.len() == i,
            r.deep_view() =~= v.deep_view().take(i as int),
        decreases v.len() - i,
    {
        r.push(v[i].clone());
        i = i + 1;
    }
    proof {
        assert(r.deep_view() =~= v.deep_view());
    }
    r
}

/// Clones a key/value list of captured volumes, keeping the view.
pub fn clone_volumes(v: &Vec<(String, i32)>) -> (r: Vec<(String, i32)>)
    ensures
        r.deep_view() == v.deep_view(),
{
    let mut r: Vec<(String, i32)> = Vec::new();
    let mut i: usize = 0;
    while i < v.len()
        invariant
            i <= v.len(),
            r@.len() == i,
            r.deep_view() =~= v.deep_view().take(i as int),
        decreases v.len() - i,
    {
        let key = v[i].0.clone();
        let value = v[i].1;
        r.push((key, value));
        i = i + 1;
    }
    proof {
        assert(r.deep_view() =~= v.deep_view());
    }
    r
}

/// Clones an optional string, keeping the view.
pub fn clone_opt_string(v: &Option<String>) -> (r: Option<String>)
    ensures
        r.deep_view() == v.deep_view(),
{
    match v {
        Some(s) => Some(s.clone()),
        None => None,
    }
}

impl Clone for Preset {
    fn clone(&self) -> (r: Self)
        ensures
            r@ == self@,
    {
        let r = Preset {
            name: self.name.clone(),
            output_ids: clone_string_vec(&self.output_ids),
            volume_type: self.volume_type,
            volumes: clone_volumes(&self.volumes),
        };
        proof {
            assert(r@ =~= self@);
        }
        r
    }
}

impl Clone for Output {
    fn clone(&self) -> (r: Self)
        ensures
            r@ == self@,
    {
        let r = Output {
            output_id: self.output_id.clone(),
            display_name: self.display_name.clone(),
            can_group_with_output_ids: clone_string_vec(&self.can_group_with_output_ids),
            volume: self.volume,
        };
        proof {
            assert(r@ =~= self@);
        }
        r
    }
}

/// Clones a preset list element by element, keeping the view.
pub fn clone_presets(v: &Vec<Preset>) -> (r: Vec<Preset>)
    ensures
        r.deep_view() == v.deep_view(),
{
    let mut r: Vec<Preset> = Vec::new();
    let mut i: usize = 0;
    while i < v.len()
        invariant
            i <= v.len(),
            r@.len() == i,
            r.deep_view() =~= v.deep_view().take(i as int),
        decreases v.len() - i,
    {
        r.push(v[i].clone());
        i = i + 1;
    }
    proof {
        assert(r.deep_view() =~= v.deep_view());
    }
    r
}

impl Clone for GroupingSettings {
    fn clone(&self) -> (r: Self)
        ensures
            r@ == self@,
    {
        let extracted: Option<Preset> = match &self.extracted_preset {
            Some(p) => Some(p.clone()),
            None => None,
        };
        let r = GroupingSettings {
            selected: self.selected,
            action: self.action,
            add: clone_opt_string(&self.add),
            primary_output_id: clone_opt_string(&self.primary_output_id),
            volume_output_id: clone_opt_string(&self.volume_output_id),
            volume_level: self.volume_level.clone(),
            name: self.name.clone(),
            output_ids: clone_string_vec(&self.output_ids),
            volume_type: self.volume_type,
            presets: clone_presets(&self.presets),
            extracted_preset: extracted,
        };
        proof {
            assert(r@ =~= self@);
        }
        r
    }
}

/// True when a string list holds the given id.
pub fn contains_id(v: &Vec<String>, id: &String) -> (r: bool)
    ensures
        r == v.deep_view().contains(id@),
{
    let mut i: usize = 0;
    while i < v.len()
        invariant
            i <= v.len(),
            forall|j: int| 0 <= j < i ==> v.deep_view()[j] != id@,
        decreases v.len() - i,
    {
        if v[i] == *id {
            proof {
                assert(v.deep_view()[i as int] == id@);
            }
            return true;
        }
        i = i + 1;
    }
    proof {
        assert forall|j: int| 0 <= j < v.deep_view().len() implies v.deep_view()[j] != id@ by {
        }
    }
    false
}

/// Key/value list helpers: the captured-volume map of a preset is kept as a
/// list of pairs in insertion order with unique keys.
pub open spec fn kv_unique(m: Seq<(Seq<char>, i32)>) -> bool {
    forall|i: int, j: int| 0 <= i < j < m.len() ==> m[i].0 != m[j].0
}

pub open spec fn kv_contains(m: Seq<(Seq<char>, i32)>, k: Seq<char>) -> bool {
    exists|i: int| 0 <= i < m.len() && m[i].0 == k
}

pub open spec fn kv_index(m: Seq<(Seq<char>, i32)>, k: Seq<char>) -> int {
    choose|i: int| 0 <= i < m.len() && m[i].0 == k
}

/// The value stored under `k`, if any.
pub open spec fn kv_lookup(m: Seq<(Seq<char>, i32)>, k: Seq<char>) -> Option<i32> {
    if kv_contains(m, k) {
        Some(m[kv_index(m, k)].1)
    } else {
        None
    }
}

/// The list after storing `v` under `k`: an existing key is updated in
/// place, a new key is appended.
pub open spec fn kv_store(m: Seq<(Seq<char>, i32)>, k: Seq<char>, v: i32) -> Seq<
    (Seq<char>, i32),
> {
    if kv_contains(m, k) {
        m.update(kv_index(m, k), (k, v))
    } else {
        m.push((k, v))
    }
}

/// Storing keeps keys unique.
pub proof fn lemma_kv_store_unique(m: Seq<(Seq<char>, i32)>, k: Seq<char>, v: i32)
    requires
        kv_unique(m),
    ensures
        kv_unique(kv_store(m, k, v)),
        kv_lookup(kv_store(m, k, v), k) == Some(v),
        forall|k2: Seq<char>| k2 != k ==> kv_lookup(kv_store(m, k, v), k2) == kv_lookup(m, k2),
{
    let r = kv_store(m, k, v);
    if kv_contains(m, k) {
        let i = kv_index(m, k);
        assert(0 <= i < m.len() && m[i].0 == k);
        assert(kv_unique(r));
        assert(r[i].0 == k && r[i].1 == v);
        assert(kv_contains(r, k));
        let i2 = kv_index(r, k);
        assert(r[i2].0 == k);
        if i2 != i {
            assert(m[i2].0 == k);
            assert(false);
        }
        assert forall|k2: Seq<char>| k2 != k implies kv_lookup(r, k2) == kv_lookup(m, k2) by {
            if kv_contains(m, k2) {
                let j = kv_index(m, k2);
                assert(r[j] == m[j]);
                assert(kv_contains(r, k2));
                let j2 = kv_index(r, k2);
                if j2 == i {
                    assert(false);
                }
                assert(m[j2].0 == k2);
                if j2 != j {
                    assert(false);
                }
            } else {
                if kv_contains(r, k2) {
                    let j2 = kv_index(r, k2);
                    assert(r[j2].0 == k2);
                    if j2 == i {
                        assert(false);
                    }
                    assert(m[j2].0 == k2);
                    assert(false);
                }
            }
        }
    } else {
        assert forall|i: int, j: int| 0 <= i < j < r.len() implies r[i].0 != r[j].0 by {
            if j == m.len() {
                assert(r[i] == m[i]);
                if r[i].0 == k {
                    assert(kv_contains(m, k));
                }
            }
        }
        assert(r[m.len() as int].0 == k && r[m.len() as int].1 == v);
        assert(kv_contains(r, k));
        let i2 = kv_index(r, k);
        if i2 != m.len() {
            assert(m[i2].0 == k);
            assert(kv_contains(m, k));
        }
        assert forall|k2: Seq<char>| k2 != k implies kv_lookup(r, k2) == kv_lookup(m, k2) by {
            if kv_contains(m, k2) {
                let j = kv_index(m, k2);
                assert(r[j] == m[j]);
                assert(kv_contains(r, k2));
                let j2 = kv_index(r, k2);
                assert(r[j2].0 == k2);
                if j2 == m.len() {
                    assert(false);
                }
                assert(m[j2].0 == k2);
                if j2 != j {
                    assert(false);
                }
            } else {
                if kv_contains(r, k2) {
                    let j2 = kv_index(r, k2);
                    assert(r[j2].0 == k2);
                    if j2 == m.len() {
                        assert(false);
                    }
                    assert(m[j2].0 == k2);
                    assert(false);
                }
            }
        }
    }
}

/// Looks a key up in a captured-volume list.
pub fn kv_get(m: &Vec<(String, i32)>, key: &String) -> (r: Option<i32>)
    requires
        kv_unique(m.deep_view()),
    ensures
        r == kv_lookup(m.deep_view(), key@),
{
    let ghost mv = m.deep_view();
    let mut i: usize = 0;
    while i < m.len()
        invariant
            mv == m.deep_view(),
            kv_unique(mv),
            i <= m.len(),
            forall|j: int| 0 <= j < i ==> mv[j].0 != key@,
        decreases m.len() - i,
    {
        if m[i].0 == *key {
            proof {
                assert(mv[i as int].0 == key@);
                assert(kv_contains(mv, key@));
                let i2 = kv_index(mv, key@);
                assert(mv[i2].0 == key@);
                if i2 != i {
                    assert(false);
                }
            }
            return Some(m[i].1);
        }
        i = i + 1;
    }
    proof {
        if kv_contains(mv, key@) {
            let i2 = kv_index(mv, key@);
            assert(mv[i2].0 == key@);
            assert(false);
        }
    }
    None
}

/// Stores a value under a key in a captured-volume list: updates an existing
/// key in place, appends a new one.
pub fn kv_set(m: &mut Vec<(String, i32)>, key: &String, value: i32)
    requires
        kv_unique(old(m).deep_view()),
    ensures
        final(m).deep_view() == kv_store(old(m).deep_view(), key@, value),
        kv_unique(final(m).deep_view()),
{
    let ghost mv = old(m).deep_view();
    proof {
        lemma_kv_store_unique(mv, key@, value);
    }
    let mut i: usize = 0;
    while i < m.len()
        invariant
            mv == old(m).deep_view(),
            mv == m.deep_view(),
            kv_unique(mv),
            i <= m.len(),
            forall|j: int| 0 <= j < i ==> mv[j].0 != key@,
        decreases m.len() - i,
    {
        if m[i].0 == *key {
            proof {
                assert(mv[i as int].0 == key@);
                assert(kv_contains(mv, key@));
                let i2 = kv_index(mv, key@);
                assert(mv[i2].0 == key@);
                if i2 != i {
                    assert(false);
                }
            }
            let k2 = key.clone();
            m[i] = (k2, value);
            proof {
                assert(m.deep_view() =~= kv_store(mv, key@, value));
            }
            return ;
        }
        i = i + 1;
    }
    proof {
        if kv_contains(mv, key@) {
            let i2 = kv_index(mv, key@);
            assert(mv[i2].0 == key@);
            assert(false);
        }
    }
    let k2 = key.clone();
    m.push((k2, value));
    proof {
        assert(m.deep_view() =~= kv_store(mv, key@, value));
    }
}

/// Checks that every key occurs at most once in a captured-volume list.
pub fn kv_unique_check(m: &Vec<(String, i32)>) -> (r: bool)
    ensures
        r == kv_unique(m.deep_view()),
{
    let ghost mv = m.deep_view();
    let mut i: usize = 0;
    while i < m.len()
        invariant
            mv == m.deep_view(),
            i <= m.len(),
            forall|a: int, b: int| 0 <= a < b < i ==> mv[a].0 != mv[b].0,
        decreases m.len() - i,
    {
        let mut j: usize = 0;
        while j < i
            invariant
                mv == m.deep_view(),
                j <= i < m.len(),
                forall|a: int, b: int| 0 <= a < b < i ==> mv[a].0 != mv[b].0,
                forall|b: int| 0 <= b < j ==> mv[b].0 != mv[i as int].0,
            decreases i - j,
        {
            if m[j].0 == m[i].0 {
                proof {
                    assert(mv[j as int].0 == mv[i as int].0);
                }
                return false;
            }
            j = j + 1;
        }
        i = i + 1;
    }
    true
}

/// Uniqueness of output ids in the cache of known outputs.
pub open spec fn outputs_unique(outs: Seq<OutputV>) -> bool {
    forall|i: int, j: int| 0 <= i < j < outs.len() ==> outs[i].output_id != outs[j].output_id
}

pub open spec fn outputs_has(outs: Seq<OutputV>, id: Seq<char>) -> bool {
    exists|i: int| 0 <= i < outs.len() && outs[i].output_id == id
}

pub open spec fn output_index(outs: Seq<OutputV>, id: Seq<char>) -> int {
    choose|i: int| 0 <= i < outs.len() && outs[i].output_id == id
}

/// The output with the given id, if the cache holds one.
pub open spec fn output_lookup(outs: Seq<OutputV>, id: Seq<char>) -> Option<OutputV> {
    if outputs_has(outs, id) {
        Some(outs[output_index(outs, id)])
    } else {
        None
    }
}

/// Finds the position of an output by id in the cache.
pub fn find_output(outs: &Vec<Output>, id: &String) -> (r: Option<usize>)
    requires
        outputs_unique(outs.deep_view()),
    ensures
        match r {
            Some(i) => i < outs.len() && outs.deep_view()[i as int].output_id == id@ && outputs_has(
                outs.deep_view(),
                id@,
            ) && output_index(outs.deep_view(), id@) == i,
            None => !outputs_has(outs.deep_view(), id@),
        },
{
    let ghost ov = outs.deep_view();
    let mut i: usize = 0;
    while i < outs.len()
        invariant
            ov == outs.deep_view(),
            outputs_unique(ov),
            i <= outs.len(),
            forall|j: int| 0 <= j < i ==> ov[j].output_id != id@,
        decreases outs.len() - i,
    {
        if outs[i].output_id == *id {
            proof {
                assert(ov[i as int].output_id == id@);
                assert(outputs_has(ov, id@));
                let i2 = output_index(ov, id@);
                assert(ov[i2].output_id == id@);
                if i2 != i {
                    assert(false);
                }
            }
            return Some(i);
        }
        i = i + 1;
    }
    proof {
        if outputs_has(ov, id@) {
            let i2 = output_index(ov, id@);
            assert(ov[i2].output_id == id@);
            assert(false);
        }
    }
    None
}

/// Structural validity of a stored preset: at least one output (the first
/// one is the primary) and uniquely keyed captured volumes.
pub open spec fn wf_preset(p: PresetV) -> bool {
    &&& p.output_ids.len() >= 1
    &&& kv_unique(p.volumes)
}

/// Pushing onto a vector pushes the element's view onto its deep view.
pub proof fn lemma_vec_deep_view_push<T: DeepView>(v1: Vec<T>, v2: Vec<T>)
    requires
        v2@ == v1@.push(v2@.last()),
        v2@.len() == v1@.len() + 1,
    ensures
        v2.deep_view() =~= v1.deep_view().push(v2@.last().deep_view()),
        v2.deep_view().len() == v1.deep_view().len() + 1,
{
    assert(v2.deep_view().len() == v2@.len());
    assert(v1.deep_view().len() == v1@.len());
    assert forall|k: int| 0 <= k < v2@.len() implies v2.deep_view()[k] == v1.deep_view().push(
        v2@.last().deep_view(),
    )[k] by {
        assert(v2.deep_view()[k] == v2@[k].deep_view());
        if k < v1@.len() {
            assert(v2@[k] == v1@[k]);
            assert(v1.deep_view()[k] == v1@[k].deep_view());
        } else {
            assert(v2@[k] == v2@.last());
        }
    }
}

/// Removing one slot of a vector removes that slot of its deep view.
pub proof fn lemma_vec_deep_view_remove<T: DeepView>(v1: Vec<T>, v2: Vec<T>, j: int)
    requires
        0 <= j < v1@.len(),
        v2@ == v1@.remove(j),
    ensures
        v2.deep_view() =~= v1.deep_view().remove(j),
{
    assert(v2.deep_view().len() == v2@.len());
    assert(v1.deep_view().len() == v1@.len());
    assert forall|k: int| 0 <= k < v2@.len() implies v2.deep_view()[k] == v1.deep_view().remove(
        j,
    )[k] by {
        assert(v2.deep_view()[k] == v2@[k].deep_view());
        if k < j {
            assert(v2@[k] == v1@[k]);
            assert(v1.deep_view()[k] == v1@[k].deep_view());
        } else {
            assert(v2@[k] == v1@[k + 1]);
            assert(v1.deep_view()[k + 1] == v1@[k + 1].deep_view());
        }
    }
}

/// Equality of optional indices.
pub fn opt_usize_eq(a: &Option<usize>, b: &Option<usize>) -> (r: bool)
    ensures
        r == (a == b),
{
    match (a, b) {
        (Some(x), Some(y)) => x == y,
        (None, None) => true,
        _ => false,
    }
}

/// Equality of optional ids, compared by contents.
pub fn opt_string_eq(a: &Option<String>, b: &Option<String>) -> (r: bool)
    ensures
        r == (a.deep_view() == b.deep_view()),
{
    match (a, b) {
        (Some(x), Some(y)) => {
            let e = *x == *y;
            proof {
                if a.deep_view() == b.deep_view() {
                    assert(a.deep_view()->0 == b.deep_view()->0);
                }
            }
            e
        },
        (None, None) => true,
        _ => false,
    }
}

/// Updating one slot of a vector updates that slot of its deep view.
pub proof fn lemma_vec_deep_view_update<T: DeepView>(v1: Vec<T>, v2: Vec<T>, j: int)
    requires
        0 <= j < v1@.len(),
        v2@ == v1@.update(j, v2@[j]),
    ensures
        v2.deep_view() =~= v1.deep_view().update(j, v2@[j].deep_view()),
{
    assert(v2.deep_view().len() == v2@.len());
    assert(v1.deep_view().len() == v1@.len());
    assert forall|k: int| 0 <= k < v2@.len() implies v2.deep_view()[k] == v1.deep_view().update(
        j,
        v2@[j].deep_view(),
    )[k] by {
        assert(v2.deep_view()[k] == v2@[k].deep_view());
        if k != j {
            assert(v2@[k] == v1@[k]);
            assert(v1.deep_view()[k] == v1@[k].deep_view());
        }
    }
}

/// Checks that every output id occurs at most once in the cache.
pub fn outputs_unique_check(outs: &Vec<Output>) -> (r: bool)
    ensures
        r == outputs_unique(outs.deep_view()),
{
    let ghost ov = outs.deep_view();
    let mut i: usize = 0;
    while i < outs.len()
        invariant
            ov == outs.deep_view(),
            i <= outs.len(),
            forall|a: int, b: int| 0 <= a < b < i ==> ov[a].output_id != ov[b].output_id,
        decreases outs.len() - i,
    {
        let mut j: usize = 0;
        while j < i
            invariant
                ov == outs.deep_view(),
                j <= i < outs.len(),
                forall|a: int, b: int| 0 <= a < b < i ==> ov[a].output_id != ov[b].output_id,
                forall|b: int| 0 <= b < j ==> ov[b].output_id != ov[i as int].output_id,
            decreases i - j,
        {
            if outs[j].output_id == outs[i].output_id {
                proof {
                    assert(ov[j as int].output_id == ov[i as int].output_id);
                }
                return false;
            }
            j = j + 1;
        }
        i = i + 1;
    }
    true
}

/// The wire-level numeric code of an action, as the settings protocol
/// carries it.
pub open spec fn action_code_spec(a: Action) -> usize {
    match a {
        Action::Edit => 0usize,
        Action::Activate => 1usize,
        Action::Deactivate => 2usize,
        Action::Delete => 3usize,
    }
}

pub fn action_code(a: Action) -> (r: usize)
    ensures
        r == action_code_spec(a),
{
    match a {
        Action::Edit => 0,
        Action::Activate => 1,
        Action::Deactivate => 2,
        Action::Delete => 3,
    }
}

/// The action for a wire-level code, when the code is one of the four.
pub fn action_from_code(c: usize) -> (r: Option<Action>)
    ensures
        match r {
            Some(a) => action_code_spec(a) == c,
            None => c > 3,
        },
{
    match c {
        0 => Some(Action::Edit),
        1 => Some(Action::Activate),
        2 => Some(Action::Deactivate),
        3 => Some(Action::Delete),
        _ => None,
    }
}

/// The wire-level numeric code of a volume policy.
pub open spec fn volume_type_code_spec(v: VolumeType) -> usize {
    match v {
        VolumeType::Untouched => 0usize,
        VolumeType::LastUsed => 1usize,
        VolumeType::Preset => 2usize,
    }
}

pub fn volume_type_code(v: VolumeType) -> (r: usize)
    ensures
        r == volume_type_code_spec(v),
{
    match v {
        VolumeType::Untouched => 0,
        VolumeType::LastUsed => 1,
        VolumeType::Preset => 2,
    }
}

/// The volume policy for a wire-level code, when the code is one of the
/// three.
pub fn volume_type_from_code(c: usize) -> (r: Option<VolumeType>)
    ensures
        match r {
            Some(v) => volume_type_code_spec(v) == c,
            None => c > 2,
        },
{
    match c {
        0 => Some(VolumeType::Untouched),
        1 => Some(VolumeType::LastUsed),
        2 => Some(VolumeType::Preset),
        _ => None,
    }
}

} // verus!
