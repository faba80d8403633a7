//! Persistence codec: the JSON-shaped document model for the persisted
//! configuration, the encoder and the tolerant decoder, and the round-trip
//! law.  The document model mirrors the schema: a top-level object of
//! scalar fields plus the preset list; the extracted ad-hoc preset is
//! always written as null.

use vstd::prelude::*;
use crate::model::{
    GroupingSettings, Preset, PresetV, SettingsV, Action, VolumeType, action_code_spec,
    action_code, volume_type_code_spec, volume_type_code, clone_string_vec,
    lemma_vec_deep_view_push,
};

verus! {

/// A scalar document value: null, an integer, a string, an array of
/// strings, or an object mapping names to integers.
pub enum DocValue {
    Null,
    Int(i64),
    Str(String),
    StrArr(Vec<String>),
    IntObj(Vec<(String, i64)>),
}

#[verifier::ext_equal]
pub enum DocValueV {
    Null,
    Int(i64),
    Str(Seq<char>),
    StrArr(Seq<Seq<char>>),
    IntObj(Seq<(Seq<char>, i64)>),
}

impl View for DocValue {
    type V = DocValueV;

    open spec fn view(&self) -> DocValueV {
        match self {
            DocValue::Null => DocValueV::Null,
            DocValue::Int(i) => DocValueV::Int(*i),
            DocValue::Str(s) => DocValueV::Str(s@),
            DocValue::StrArr(a) => DocValueV::StrArr(a.deep_view()),
            DocValue::IntObj(m) => DocValueV::IntObj(m.deep_view()),
        }
    }
}

impl DeepView for DocValue {
    type V = DocValueV;

    open spec fn deep_view(&self) -> DocValueV {
        self.view()
    }
}

/// An object of scalar fields: the document shape of one preset.
pub struct DocObject {
    pub fields: Vec<(String, DocValue)>,
}

#[verifier::ext_equal]
pub struct DocObjectV {
    pub fields: Seq<(Seq<char>, DocValueV)>,
}

impl View for DocObject {
    type V = DocObjectV;

    open spec fn view(&self) -> DocObjectV {
        DocObjectV { fields: self.fields.deep_view() }
    }
}

impl DeepView for DocObject {
    type V = DocObjectV;

    open spec fn deep_view(&self) -> DocObjectV {
        self.view()
    }
}

/// A top-level field: a scalar, an array of objects, or one object.
pub enum DocField {
    Value(DocValue),
    Objects(Vec<DocObject>),
    Object(DocObject),
}

#[verifier::ext_equal]
pub enum DocFieldV {
    Value(DocValueV),
    Objects(Seq<DocObjectV>),
    Object(DocObjectV),
}

impl View for DocField {
    type V = DocFieldV;

    open spec fn view(&self) -> DocFieldV {
        match self {
            DocField::Value(v) => DocFieldV::Value(v@),
            DocField::Objects(objs) => DocFieldV::Objects(objs.deep_view()),
            DocField::Object(o) => DocFieldV::Object(o@),
        }
    }
}

impl DeepView for DocField {
    type V = DocFieldV;

    open spec fn deep_view(&self) -> DocFieldV {
        self.view()
    }
}

/// The whole persisted document.
pub struct ConfigDoc {
    pub fields: Vec<(String, DocField)>,
}

#[verifier::ext_equal]
pub struct ConfigDocV {
    pub fields: Seq<(Seq<char>, DocFieldV)>,
}

impl View for ConfigDoc {
    type V = ConfigDocV;

    open spec fn view(&self) -> ConfigDocV {
        ConfigDocV { fields: self.fields.deep_view() }
    }
}

/// First-match lookup of a named field.
pub open spec fn pair_lookup<T>(fields: Seq<(Seq<char>, T)>, k: Seq<char>) -> Option<T>
    decreases fields.len(),
{
    if fields.len() == 0 {
        None
    } else if fields[0].0 == k {
        Some(fields[0].1)
    } else {
        pair_lookup(fields.drop_first(), k)
    }
}

/// The first match determines the lookup.
pub proof fn lemma_pair_lookup_at<T>(fields: Seq<(Seq<char>, T)>, k: Seq<char>, i: int)
    requires
        0 <= i < fields.len(),
        fields[i].0 == k,
        forall|j: int| 0 <= j < i ==> fields[j].0 != k,
    ensures
        pair_lookup(fields, k) == Some(fields[i].1),
    decreases i,
{
    if i == 0 {
    } else {
        assert(fields[0].0 != k);
        let rest = fields.drop_first();
        assert(rest[i - 1] == fields[i]);
        assert(forall|j: int| 0 <= j < i - 1 ==> rest[j] == fields[j + 1]);
        lemma_pair_lookup_at(rest, k, i - 1);
    }
}

/// Without a match the lookup is empty.
pub proof fn lemma_pair_lookup_none<T>(fields: Seq<(Seq<char>, T)>, k: Seq<char>)
    requires
        forall|j: int| 0 <= j < fields.len() ==> fields[j].0 != k,
    ensures
        pair_lookup(fields, k) is None,
    decreases fields.len(),
{
    if fields.len() > 0 {
        let rest = fields.drop_first();
        assert(forall|j: int| 0 <= j < rest.len() ==> rest[j] == fields[j + 1]);
        lemma_pair_lookup_none(rest, k);
    }
}

/// Finds the position of the first field with the given name.
pub fn pair_find<T: DeepView>(fields: &Vec<(String, T)>, key: &String) -> (r: Option<usize>)
    ensures
        match r {
            Some(i) => i < fields.len() && pair_lookup(fields.deep_view(), key@) == Some(
                fields.deep_view()[i as int].1,
            ),
            None => pair_lookup(fields.deep_view(), key@) is None,
        },
{
    let ghost fv = fields.deep_view();
    let mut i: usize = 0;
    while i < fields.len()
        invariant
            fv == fields.deep_view(),
            i <= fields.len(),
            forall|j: int| 0 <= j < i ==> fv[j].0 != key@,
        decreases fields.len() - i,
    {
        if fields[i].0 == *key {
            proof {
                assert(fv[i as int].0 == key@);
                lemma_pair_lookup_at(fv, key@, i as int);
            }
            return Some(i);
        }
        proof {
            assert(fv[i as int].0 != key@);
        }
        i = i + 1;
    }
    proof {
        lemma_pair_lookup_none(fv, key@);
    }
    None
}

/// The document form of the captured volumes `[0 .. i]`.
pub open spec fn volumes_doc(vols: Seq<(Seq<char>, i32)>, i: int) -> Seq<(Seq<char>, i64)>
    decreases i,
{
    if i <= 0 {
        Seq::empty()
    } else {
        volumes_doc(vols, i - 1).push((vols[i - 1].0, vols[i - 1].1 as i64))
    }
}

/// The document form of one preset.
pub open spec fn preset_doc(p: PresetV) -> DocObjectV {
    DocObjectV {
        fields: seq![
            ("name"@, DocValueV::Str(p.name)),
            ("output_ids"@, DocValueV::StrArr(p.output_ids)),
            ("volume_type"@, DocValueV::Int(volume_type_code_spec(p.volume_type) as i64)),
            ("volumes"@, DocValueV::IntObj(volumes_doc(p.volumes, p.volumes.len() as int))),
        ],
    }
}

/// The document form of the presets `[0 .. i]`.
pub open spec fn presets_doc(ps: Seq<PresetV>, i: int) -> Seq<DocObjectV>
    decreases i,
{
    if i <= 0 {
        Seq::empty()
    } else {
        presets_doc(ps, i - 1).push(preset_doc(ps[i - 1]))
    }
}

pub open spec fn opt_str_value(o: Option<Seq<char>>) -> DocValueV {
    match o {
        Some(s) => DocValueV::Str(s),
        None => DocValueV::Null,
    }
}

/// The persisted document of a settings value, field names as the schema
/// gives them, with `extracted_preset` always null.
pub open spec fn settings_doc(s: SettingsV) -> ConfigDocV {
    ConfigDocV {
        fields: seq![
            (
                "selected"@,
                DocFieldV::Value(
                    match s.selected {
                        Some(i) => DocValueV::Int(i as i64),
                        None => DocValueV::Null,
                    },
                ),
            ),
            ("action"@, DocFieldV::Value(DocValueV::Int(action_code_spec(s.action) as i64))),
            ("add"@, DocFieldV::Value(opt_str_value(s.add))),
            ("primary_output_id"@, DocFieldV::Value(opt_str_value(s.primary_output_id))),
            ("volume_output_id"@, DocFieldV::Value(opt_str_value(s.volume_output_id))),
            ("volume_level"@, DocFieldV::Value(DocValueV::Str(s.volume_level))),
            ("name"@, DocFieldV::Value(DocValueV::Str(s.name))),
            ("output_ids"@, DocFieldV::Value(DocValueV::StrArr(s.output_ids))),
            (
                "volume_type"@,
                DocFieldV::Value(DocValueV::Int(volume_type_code_spec(s.volume_type) as i64)),
            ),
            ("presets"@, DocFieldV::Objects(presets_doc(s.presets, s.presets.len() as int))),
            ("extracted_preset"@, DocFieldV::Value(DocValueV::Null)),
        ],
    }
}

/// An index fits the document's integer representation.
pub open spec fn index_encodable(s: SettingsV) -> bool {
    match s.selected {
        Some(i) => i <= 0x7fff_ffff,
        None => true,
    }
}

/// Encodes one preset.
fn encode_preset(p: &Preset) -> (r: DocObject)
    ensures
        r@ == preset_doc(p@),
{
    let ghost pv = p@;
    let mut fields: Vec<(String, DocValue)> = Vec::new();
    fields.push(("name".to_owned(), DocValue::Str(p.name.clone())));
    fields.push(("output_ids".to_owned(), DocValue::StrArr(clone_string_vec(&p.output_ids))));
    fields.push(
        ("volume_type".to_owned(), DocValue::Int(volume_type_code(p.volume_type) as i64)),
    );
    let mut vols: Vec<(String, i64)> = Vec::new();
    let mut i: usize = 0;
    while i < p.volumes.len()
        invariant
            pv == p@,
            i <= p.volumes.len(),
            vols@.len() == i,
            vols.deep_view() =~= volumes_doc(pv.volumes, i as int),
        decreases p.volumes.len() - i,
    {
        let key = p.volumes[i].0.clone();
        let value = p.volumes[i].1;
        let ghost prev = vols;
        vols.push((key, value as i64));
        proof {
            lemma_vec_deep_view_push(prev, vols);
            assert(pv.volumes[i as int] == p.volumes@[i as int].deep_view());
            assert(vols.deep_view() =~= volumes_doc(pv.volumes, i + 1));
        }
        i = i + 1;
    }
    fields.push(("volumes".to_owned(), DocValue::IntObj(vols)));
    let r = DocObject { fields };
    proof {
        assert(r@.fields =~= preset_doc(pv).fields);
        assert(r@ =~= preset_doc(pv));
    }
    r
}

fn encode_opt_string(o: &Option<String>) -> (r: DocValue)
    ensures
        r@ == opt_str_value(o.deep_view()),
{
    match o {
        Some(s) => DocValue::Str(s.clone()),
        None => DocValue::Null,
    }
}

/// Encodes the settings into the persisted document shape, writing the
/// extracted ad-hoc preset as null.
pub fn encode_settings(settings: &GroupingSettings) -> (r: ConfigDoc)
    requires
        index_encodable(settings@),
    ensures
        r@ == settings_doc(settings@),
{
    let ghost s = settings@;
    let mut fields: Vec<(String, DocField)> = Vec::new();
    let selected_value = match settings.selected {
        Some(i) => DocValue::Int(i as i64),
        None => DocValue::Null,
    };
    fields.push(("selected".to_owned(), DocField::Value(selected_value)));
    fields.push(
        (
            "action".to_owned(),
            DocField::Value(DocValue::Int(action_code(settings.action) as i64)),
        ),
    );
    fields.push(("add".to_owned(), DocField::Value(encode_opt_string(&settings.add))));
    fields.push(
        (
            "primary_output_id".to_owned(),
            DocField::Value(encode_opt_string(&settings.primary_output_id)),
        ),
    );
    fields.push(
        (
            "volume_output_id".to_owned(),
            DocField::Value(encode_opt_string(&settings.volume_output_id)),
        ),
    );
    fields.push(
        (
            "volume_level".to_owned(),
            DocField::Value(DocValue::Str(settings.volume_level.clone())),
        ),
    );
    fields.push(("name".to_owned(), DocField::Value(DocValue::Str(settings.name.clone()))));
    fields.push(
        (
            "output_ids".to_owned(),
            DocField::Value(DocValue::StrArr(clone_string_vec(&settings.output_ids))),
        ),
    );
    fields.push(
        (
            "volume_type".to_owned(),
            DocField::Value(DocValue::Int(volume_type_code(settings.volume_type) as i64)),
        ),
    );
    let mut objs: Vec<DocObject> = Vec::new();
    let mut i: usize = 0;
    while i < settings.presets.len()
        invariant
            s == settings@,
            i <= settings.presets.len(),
            objs@.len() == i,
            objs.deep_view() =~= presets_doc(s.presets, i as int),
        decreases settings.presets.len() - i,
    {
        let obj = encode_preset(&settings.presets[i]);
        let ghost prev = objs;
        objs.push(obj);
        proof {
            lemma_vec_deep_view_push(prev, objs);
            assert(s.presets[i as int] == settings.presets@[i as int].deep_view());
            assert(objs.deep_view() =~= presets_doc(s.presets, i + 1));
        }
        i = i + 1;
    }
    fields.push(("presets".to_owned(), DocField::Objects(objs)));
    fields.push(("extracted_preset".to_owned(), DocField::Value(DocValue::Null)));
    let r = ConfigDoc { fields };
    proof {
        assert(s.presets.len() == settings.presets@.len());
        assert(r@.fields =~= settings_doc(s).fields);
        assert(r@ =~= settings_doc(s));
    }
    r
}

/// Decoding one scalar into an optional preset index: null or a
/// non-negative integer within the index range.
pub open spec fn dec_opt_index(v: DocValueV) -> Option<Option<usize>> {
    match v {
        DocValueV::Null => Some(None),
        DocValueV::Int(i) => if 0 <= i <= 0x7fff_ffff {
            Some(Some(i as usize))
        } else {
            None
        },
        _ => None,
    }
}

pub open spec fn dec_action(v: DocValueV) -> Option<Action> {
    match v {
        DocValueV::Int(i) => {
            if i == 0 {
                Some(Action::Edit)
            } else if i == 1 {
                Some(Action::Activate)
            } else if i == 2 {
                Some(Action::Deactivate)
            } else if i == 3 {
                Some(Action::Delete)
            } else {
                None
            }
        },
        _ => None,
    }
}

pub open spec fn dec_volume_type(v: DocValueV) -> Option<VolumeType> {
    match v {
        DocValueV::Int(i) => {
            if i == 0 {
                Some(VolumeType::Untouched)
            } else if i == 1 {
                Some(VolumeType::LastUsed)
            } else if i == 2 {
                Some(VolumeType::Preset)
            } else {
                None
            }
        },
        _ => None,
    }
}

pub open spec fn dec_opt_str(v: DocValueV) -> Option<Option<Seq<char>>> {
    match v {
        DocValueV::Null => Some(None),
        DocValueV::Str(s) => Some(Some(s)),
        _ => None,
    }
}

pub open spec fn dec_str(v: DocValueV) -> Option<Seq<char>> {
    match v {
        DocValueV::Str(s) => Some(s),
        _ => None,
    }
}

pub open spec fn dec_str_arr(v: DocValueV) -> Option<Seq<Seq<char>>> {
    match v {
        DocValueV::StrArr(a) => Some(a),
        _ => None,
    }
}

/// Decoding the first `i` captured volumes; an out-of-range level fails.
pub open spec fn volumes_from(m: Seq<(Seq<char>, i64)>, i: int) -> Option<Seq<(Seq<char>, i32)>>
    decreases i,
{
    if i <= 0 {
        Some(Seq::empty())
    } else {
        match volumes_from(m, i - 1) {
            None => None,
            Some(acc) => {
                if i32::MIN <= m[i - 1].1 <= i32::MAX {
                    Some(acc.push((m[i - 1].0, m[i - 1].1 as i32)))
                } else {
                    None
                }
            },
        }
    }
}

pub open spec fn dec_volumes(v: DocValueV) -> Option<Seq<(Seq<char>, i32)>> {
    match v {
        DocValueV::IntObj(m) => volumes_from(m, m.len() as int),
        _ => None,
    }
}

/// A failed prefix fails the whole volume decode.
pub proof fn lemma_volumes_from_none(m: Seq<(Seq<char>, i64)>, i: int, k: int)
    requires
        0 <= i <= k,
        volumes_from(m, i) is None,
    ensures
        volumes_from(m, k) is None,
    decreases k - i,
{
    if i < k {
        lemma_volumes_from_none(m, i + 1, k)
    }
}

/// Decoding one preset object: all four fields present with the right
/// shapes.
pub open spec fn preset_from_doc(o: DocObjectV) -> Option<PresetV> {
    let name_f = pair_lookup(o.fields, "name"@);
    let ids_f = pair_lookup(o.fields, "output_ids"@);
    let vt_f = pair_lookup(o.fields, "volume_type"@);
    let vols_f = pair_lookup(o.fields, "volumes"@);
    if name_f is Some && ids_f is Some && vt_f is Some && vols_f is Some {
        let name = dec_str(name_f->0);
        let ids = dec_str_arr(ids_f->0);
        let vt = dec_volume_type(vt_f->0);
        let vols = dec_volumes(vols_f->0);
        if name is Some && ids is Some && vt is Some && vols is Some {
            Some(
                PresetV {
                    name: name->0,
                    output_ids: ids->0,
                    volume_type: vt->0,
                    volumes: vols->0,
                },
            )
        } else {
            None
        }
    } else {
        None
    }
}

/// Decoding the first `i` preset objects; one bad object fails all.
pub open spec fn presets_from(objs: Seq<DocObjectV>, i: int) -> Option<Seq<PresetV>>
    decreases i,
{
    if i <= 0 {
        Some(Seq::empty())
    } else {
        match presets_from(objs, i - 1) {
            None => None,
            Some(acc) => match preset_from_doc(objs[i - 1]) {
                None => None,
                Some(p) => Some(acc.push(p)),
            },
        }
    }
}

/// A failed prefix fails the whole preset decode.
pub proof fn lemma_presets_from_none(objs: Seq<DocObjectV>, i: int, k: int)
    requires
        0 <= i <= k,
        presets_from(objs, i) is None,
    ensures
        presets_from(objs, k) is None,
    decreases k - i,
{
    if i < k {
        lemma_presets_from_none(objs, i + 1, k)
    }
}

/// Decoding the extracted ad-hoc preset: null, or a full preset object.
pub open spec fn dec_extracted(f: DocFieldV) -> Option<Option<PresetV>> {
    match f {
        DocFieldV::Value(v) => {
            if v is Null {
                Some(None)
            } else {
                None
            }
        },
        DocFieldV::Object(o) => match preset_from_doc(o) {
            None => None,
            Some(p) => Some(Some(p)),
        },
        _ => None,
    }
}

/// Decoding the whole document.  Fields may come in any order and unknown
/// fields are ignored; a missing field of optional kind reads as absent,
/// while any other missing or ill-shaped field fails the decode.
pub open spec fn settings_from_doc_spec(d: ConfigDocV) -> Option<SettingsV> {
    let selected = match pair_lookup(d.fields, "selected"@) {
        None => Some(None),
        Some(f) => match f {
            DocFieldV::Value(v) => dec_opt_index(v),
            _ => None,
        },
    };
    let action = match pair_lookup(d.fields, "action"@) {
        Some(DocFieldV::Value(v)) => dec_action(v),
        _ => None,
    };
    let add = match pair_lookup(d.fields, "add"@) {
        None => Some(None),
        Some(f) => match f {
            DocFieldV::Value(v) => dec_opt_str(v),
            _ => None,
        },
    };
    let primary = match pair_lookup(d.fields, "primary_output_id"@) {
        None => Some(None),
        Some(f) => match f {
            DocFieldV::Value(v) => dec_opt_str(v),
            _ => None,
        },
    };
    let volume_output = match pair_lookup(d.fields, "volume_output_id"@) {
        None => Some(None),
        Some(f) => match f {
            DocFieldV::Value(v) => dec_opt_str(v),
            _ => None,
        },
    };
    let volume_level = match pair_lookup(d.fields, "volume_level"@) {
        Some(DocFieldV::Value(v)) => dec_str(v),
        _ => None,
    };
    let name = match pair_lookup(d.fields, "name"@) {
        Some(DocFieldV::Value(v)) => dec_str(v),
        _ => None,
    };
    let output_ids = match pair_lookup(d.fields, "output_ids"@) {
        Some(DocFieldV::Value(v)) => dec_str_arr(v),
        _ => None,
    };
    let volume_type = match pair_lookup(d.fields, "volume_type"@) {
        Some(DocFieldV::Value(v)) => dec_volume_type(v),
        _ => None,
    };
    let presets = match pair_lookup(d.fields, "presets"@) {
        Some(DocFieldV::Objects(objs)) => presets_from(objs, objs.len() as int),
        _ => None,
    };
    let extracted = match pair_lookup(d.fields, "extracted_preset"@) {
        None => Some(None),
        Some(f) => dec_extracted(f),
    };
    if selected is Some && action is Some && add is Some && primary is Some && volume_output
        is Some && volume_level is Some && name is Some && output_ids is Some && volume_type
        is Some && presets is Some && extracted is Some {
        Some(
            SettingsV {
                selected: selected->0,
                action: action->0,
                add: add->0,
                primary_output_id: primary->0,
                volume_output_id: volume_output->0,
                volume_level: volume_level->0,
                name: name->0,
                output_ids: output_ids->0,
                volume_type: volume_type->0,
                presets: presets->0,
                extracted_preset: extracted->0,
            },
        )
    } else {
        None
    }
}

fn decode_opt_index(v: &DocValue) -> (r: Option<Option<usize>>)
    ensures
        r == dec_opt_index(v@),
{
    match v {
        DocValue::Null => Some(None),
        DocValue::Int(i) => {
            if *i >= 0 && *i <= 0x7fff_ffff {
                Some(Some(*i as usize))
            } else {
                None
            }
        },
        _ => None,
    }
}

fn decode_action(v: &DocValue) -> (r: Option<Action>)
    ensures
        r == dec_action(v@),
{
    match v {
        DocValue::Int(i) => {
            if *i == 0 {
                Some(Action::Edit)
            } else if *i == 1 {
                Some(Action::Activate)
            } else if *i == 2 {
                Some(Action::Deactivate)
            } else if *i == 3 {
                Some(Action::Delete)
            } else {
                None
            }
        },
        _ => None,
    }
}

fn decode_volume_type(v: &DocValue) -> (r: Option<VolumeType>)
    ensures
        r == dec_volume_type(v@),
{
    match v {
        DocValue::Int(i) => {
            if *i == 0 {
                Some(VolumeType::Untouched)
            } else if *i == 1 {
                Some(VolumeType::LastUsed)
            } else if *i == 2 {
                Some(VolumeType::Preset)
            } else {
                None
            }
        },
        _ => None,
    }
}

fn decode_opt_string(v: &DocValue) -> (r: Option<Option<String>>)
    ensures
        match r {
            Some(o) => dec_opt_str(v@) == Some(o.deep_view()),
            None => dec_opt_str(v@) is None,
        },
{
    match v {
        DocValue::Null => Some(None),
        DocValue::Str(s) => Some(Some(s.clone())),
        _ => None,
    }
}

fn decode_string(v: &DocValue) -> (r: Option<String>)
    ensures
        match r {
            Some(s) => dec_str(v@) == Some(s@),
            None => dec_str(v@) is None,
        },
{
    match v {
        DocValue::Str(s) => Some(s.clone()),
        _ => None,
    }
}

fn decode_str_arr(v: &DocValue) -> (r: Option<Vec<String>>)
    ensures
        match r {
            Some(a) => dec_str_arr(v@) == Some(a.deep_view()),
            None => dec_str_arr(v@) is None,
        },
{
    match v {
        DocValue::StrArr(a) => Some(clone_string_vec(a)),
        _ => None,
    }
}

fn decode_volumes(v: &DocValue) -> (r: Option<Vec<(String, i32)>>)
    ensures
        match r {
            Some(m) => dec_volumes(v@) == Some(m.deep_view()),
            None => dec_volumes(v@) is None,
        },
{
    match v {
        DocValue::IntObj(m) => {
            let ghost mv = m.deep_view();
            let mut acc: Vec<(String, i32)> = Vec::new();
            let mut i: usize = 0;
            while i < m.len()
                invariant
                    mv == m.deep_view(),
                    v@ == DocValueV::IntObj(mv),
                    i <= m.len(),
                    acc@.len() == i,
                    volumes_from(mv, i as int) == Some(acc.deep_view()),
                decreases m.len() - i,
            {
                let level = m[i].1;
                if level < i32::MIN as i64 || level > i32::MAX as i64 {
                    proof {
                        assert(volumes_from(mv, i + 1) is None);
                        lemma_volumes_from_none(mv, i + 1, mv.len() as int);
                    }
                    return None;
                }
                let key = m[i].0.clone();
                let ghost prev = acc;
                acc.push((key, level as i32));
                proof {
                    lemma_vec_deep_view_push(prev, acc);
                    assert(mv[i as int] == m@[i as int].deep_view());
                    assert(acc.deep_view() =~= volumes_from(mv, i + 1)->0);
                    assert(volumes_from(mv, i + 1) == Some(acc.deep_view()));
                }
                i = i + 1;
            }
            Some(acc)
        },
        _ => None,
    }
}

/// Decodes one preset object.
pub fn decode_preset(o: &DocObject) -> (r: Option<Preset>)
    ensures
        match r {
            Some(p) => preset_from_doc(o@) == Some(p@),
            None => preset_from_doc(o@) is None,
        },
{
    let name_i = pair_find(&o.fields, &"name".to_owned());
    let ids_i = pair_find(&o.fields, &"output_ids".to_owned());
    let vt_i = pair_find(&o.fields, &"volume_type".to_owned());
    let vols_i = pair_find(&o.fields, &"volumes".to_owned());
    let (name_i, ids_i, vt_i, vols_i) = match (name_i, ids_i, vt_i, vols_i) {
        (Some(a), Some(b), Some(c), Some(d)) => (a, b, c, d),
        _ => {
            return None;
        },
    };
    let name = decode_string(&o.fields[name_i].1);
    let ids = decode_str_arr(&o.fields[ids_i].1);
    let vt = decode_volume_type(&o.fields[vt_i].1);
    let vols = decode_volumes(&o.fields[vols_i].1);
    match (name, ids, vt, vols) {
        (Some(name), Some(output_ids), Some(volume_type), Some(volumes)) => {
            let p = Preset { name, output_ids, volume_type, volumes };
            proof {
                assert(p@ =~= preset_from_doc(o@)->0);
            }
            Some(p)
        },
        _ => None,
    }
}

/// Decodes the whole document, tolerating any field order and ignoring
/// unknown fields; fails on a missing required field or a wrong shape.
pub fn decode_settings(d: &ConfigDoc) -> (r: Option<GroupingSettings>)
    ensures
        match r {
            Some(s) => settings_from_doc_spec(d@) == Some(s@),
            None => settings_from_doc_spec(d@) is None,
        },
{
    let ghost dv = d@;
    let selected = match pair_find(&d.fields, &"selected".to_owned()) {
        None => Some(None),
        Some(i) => match &d.fields[i].1 {
            DocField::Value(v) => decode_opt_index(v),
            _ => None,
        },
    };
    let action = match pair_find(&d.fields, &"action".to_owned()) {
        Some(i) => match &d.fields[i].1 {
            DocField::Value(v) => decode_action(v),
            _ => None,
        },
        None => None,
    };
    let add = match pair_find(&d.fields, &"add".to_owned()) {
        None => Some(None),
        Some(i) => match &d.fields[i].1 {
            DocField::Value(v) => decode_opt_string(v),
            _ => None,
        },
    };
    let primary = match pair_find(&d.fields, &"primary_output_id".to_owned()) {
        None => Some(None),
        Some(i) => match &d.fields[i].1 {
            DocField::Value(v) => decode_opt_string(v),
            _ => None,
        },
    };
    let volume_output = match pair_find(&d.fields, &"volume_output_id".to_owned()) {
        None => Some(None),
        Some(i) => match &d.fields[i].1 {
            DocField::Value(v) => decode_opt_string(v),
            _ => None,
        },
    };
    let volume_level = match pair_find(&d.fields, &"volume_level".to_owned()) {
        Some(i) => match &d.fields[i].1 {
            DocField::Value(v) => decode_string(v),
            _ => None,
        },
        None => None,
    };
    let name = match pair_find(&d.fields, &"name".to_owned()) {
        Some(i) => match &d.fields[i].1 {
            DocField::Value(v) => decode_string(v),
            _ => None,
        },
        None => None,
    };
    let output_ids = match pair_find(&d.fields, &"output_ids".to_owned()) {
        Some(i) => match &d.fields[i].1 {
            DocField::Value(v) => decode_str_arr(v),
            _ => None,
        },
        None => None,
    };
    let volume_type = match pair_find(&d.fields, &"volume_type".to_owned()) {
        Some(i) => match &d.fields[i].1 {
            DocField::Value(v) => decode_volume_type(v),
            _ => None,
        },
        None => None,
    };
    let presets: Option<Vec<Preset>> = match pair_find(&d.fields, &"presets".to_owned()) {
        Some(i) => match &d.fields[i].1 {
            DocField::Objects(objs) => {
                let ghost ov = objs.deep_view();
                let mut acc: Vec<Preset> = Vec::new();
                let mut k: usize = 0;
                let mut failed = false;
                while k < objs.len() && !failed
                    invariant
                        ov == objs.deep_view(),
                        k <= objs.len(),
                        !failed ==> acc@.len() == k && presets_from(ov, k as int) == Some(
                            acc.deep_view(),
                        ),
                        failed ==> presets_from(ov, ov.len() as int) is None,
                    decreases objs.len() - k,
                {
                    match decode_preset(&objs[k]) {
                        Some(p) => {
                            let ghost prev = acc;
                            acc.push(p);
                            proof {
                                lemma_vec_deep_view_push(prev, acc);
                                assert(ov[k as int] == objs@[k as int].deep_view());
                                assert(acc.deep_view() =~= presets_from(ov, k + 1)->0);
                                assert(presets_from(ov, k + 1) == Some(acc.deep_view()));
                            }
                        },
                        None => {
                            proof {
                                assert(ov[k as int] == objs@[k as int].deep_view());
                                assert(presets_from(ov, k + 1) is None);
                                lemma_presets_from_none(ov, k + 1, ov.len() as int);
                            }
                            failed = true;
                        },
                    }
                    k = k + 1;
                }
                if failed {
                    None
                } else {
                    Some(acc)
                }
            },
            _ => None,
        },
        None => None,
    };
    let extracted: Option<Option<Preset>> = match pair_find(
        &d.fields,
        &"extracted_preset".to_owned(),
    ) {
        None => Some(None),
        Some(i) => match &d.fields[i].1 {
            DocField::Value(v) => match v {
                DocValue::Null => Some(None),
                _ => None,
            },
            DocField::Object(o) => match decode_preset(o) {
                Some(p) => Some(Some(p)),
                None => None,
            },
            _ => None,
        },
    };
    match (selected, action, add, primary, volume_output, volume_level, name, output_ids,
        volume_type, presets, extracted) {
        (
            Some(selected),
            Some(action),
            Some(add),
            Some(primary_output_id),
            Some(volume_output_id),
            Some(volume_level),
            Some(name),
            Some(output_ids),
            Some(volume_type),
            Some(presets),
            Some(extracted_preset),
        ) => {
            let s = GroupingSettings {
                selected,
                action,
                add,
                primary_output_id,
                volume_output_id,
                volume_level,
                name,
                output_ids,
                volume_type,
                presets,
                extracted_preset,
            };
            proof {
                assert(s@ =~= settings_from_doc_spec(dv)->0);
            }
            Some(s)
        },
        _ => None,
    }
}

/// Volume decoding reads only the first `i` entries.
pub proof fn lemma_volumes_from_frame(m1: Seq<(Seq<char>, i64)>, m2: Seq<(Seq<char>, i64)>, i: int)
    requires
        forall|j: int| 0 <= j < i ==> m1[j] == m2[j],
    ensures
        volumes_from(m1, i) == volumes_from(m2, i),
    decreases i,
{
    if i > 0 {
        lemma_volumes_from_frame(m1, m2, i - 1);
    }
}

/// Encoding then decoding the captured volumes is the identity.
pub proof fn lemma_volumes_round_trip(vols: Seq<(Seq<char>, i32)>, n: int)
    requires
        0 <= n <= vols.len(),
    ensures
        volumes_doc(vols, n).len() == n,
        volumes_from(volumes_doc(vols, n), n) == Some(vols.take(n)),
    decreases n,
{
    if n == 0 {
        assert(vols.take(0) =~= Seq::<(Seq<char>, i32)>::empty());
    } else {
        lemma_volumes_round_trip(vols, n - 1);
        let d0 = volumes_doc(vols, n - 1);
        let d = volumes_doc(vols, n);
        assert(d == d0.push((vols[n - 1].0, vols[n - 1].1 as i64)));
        assert(forall|j: int| 0 <= j < n - 1 ==> d[j] == d0[j]);
        lemma_volumes_from_frame(d, d0, n - 1);
        assert(volumes_from(d, n - 1) == Some(vols.take(n - 1)));
        assert(d[n - 1] == (vols[n - 1].0, vols[n - 1].1 as i64));
        assert((d[n - 1].1 as i32) == vols[n - 1].1);
        assert(vols.take(n) =~= vols.take(n - 1).push(vols[n - 1]));
        assert(vols.take(n - 1).push((d[n - 1].0, d[n - 1].1 as i32)) =~= vols.take(n));
    }
}

/// Encoding then decoding one preset is the identity.
pub proof fn lemma_preset_round_trip(p: PresetV)
    ensures
        preset_from_doc(preset_doc(p)) == Some(p),
{
    let o = preset_doc(p);
    reveal_strlit("name");
    reveal_strlit("output_ids");
    reveal_strlit("volume_type");
    reveal_strlit("volumes");
    assert("name"@.len() == 4 && "output_ids"@.len() == 10 && "volume_type"@.len() == 11
        && "volumes"@.len() == 7);
    lemma_pair_lookup_at(o.fields, "name"@, 0);
    lemma_pair_lookup_at(o.fields, "output_ids"@, 1);
    lemma_pair_lookup_at(o.fields, "volume_type"@, 2);
    lemma_pair_lookup_at(o.fields, "volumes"@, 3);
    assert(dec_volume_type(DocValueV::Int(volume_type_code_spec(p.volume_type) as i64)) == Some(
        p.volume_type,
    ));
    lemma_volumes_round_trip(p.volumes, p.volumes.len() as int);
    assert(p.volumes.take(p.volumes.len() as int) =~= p.volumes);
    assert(preset_from_doc(o)->0 =~= p);
}

/// Preset decoding reads only the first `i` objects.
pub proof fn lemma_presets_from_frame(objs1: Seq<DocObjectV>, objs2: Seq<DocObjectV>, i: int)
    requires
        forall|j: int| 0 <= j < i ==> objs1[j] == objs2[j],
    ensures
        presets_from(objs1, i) == presets_from(objs2, i),
    decreases i,
{
    if i > 0 {
        lemma_presets_from_frame(objs1, objs2, i - 1);
    }
}

/// Encoding then decoding the preset list is the identity.
pub proof fn lemma_presets_round_trip(ps: Seq<PresetV>, n: int)
    requires
        0 <= n <= ps.len(),
    ensures
        presets_doc(ps, n).len() == n,
        presets_from(presets_doc(ps, n), n) == Some(ps.take(n)),
    decreases n,
{
    if n == 0 {
        assert(ps.take(0) =~= Seq::<PresetV>::empty());
    } else {
        lemma_presets_round_trip(ps, n - 1);
        let d0 = presets_doc(ps, n - 1);
        let d = presets_doc(ps, n);
        assert(d == d0.push(preset_doc(ps[n - 1])));
        assert(forall|j: int| 0 <= j < n - 1 ==> d[j] == d0[j]);
        lemma_presets_from_frame(d, d0, n - 1);
        assert(d[n - 1] == preset_doc(ps[n - 1]));
        lemma_preset_round_trip(ps[n - 1]);
        assert(ps.take(n) =~= ps.take(n - 1).push(ps[n - 1]));
    }
}

/// The persisted round trip: encoding a settings value and decoding the
/// result yields an equal value, except that the extracted ad-hoc preset,
/// which is never persisted, comes back absent.
pub proof fn lemma_settings_round_trip(s: SettingsV)
    requires
        index_encodable(s),
    ensures
        settings_from_doc_spec(settings_doc(s)) == Some(
            SettingsV { extracted_preset: None, ..s },
        ),
{
    let d = settings_doc(s);
    reveal_strlit("selected");
    reveal_strlit("action");
    reveal_strlit("add");
    reveal_strlit("primary_output_id");
    reveal_strlit("volume_output_id");
    reveal_strlit("volume_level");
    reveal_strlit("name");
    reveal_strlit("output_ids");
    reveal_strlit("volume_type");
    reveal_strlit("presets");
    reveal_strlit("extracted_preset");
    assert("selected"@.len() == 8 && "action"@.len() == 6 && "add"@.len() == 3
        && "primary_output_id"@.len() == 17 && "volume_output_id"@.len() == 16
        && "volume_level"@.len() == 12 && "name"@.len() == 4 && "output_ids"@.len() == 10
        && "volume_type"@.len() == 11 && "presets"@.len() == 7 && "extracted_preset"@.len()
        == 16);
    assert("volume_output_id"@[0] == 'v' && "extracted_preset"@[0] == 'e');
    lemma_pair_lookup_at(d.fields, "selected"@, 0);
    lemma_pair_lookup_at(d.fields, "action"@, 1);
    lemma_pair_lookup_at(d.fields, "add"@, 2);
    lemma_pair_lookup_at(d.fields, "primary_output_id"@, 3);
    lemma_pair_lookup_at(d.fields, "volume_output_id"@, 4);
    lemma_pair_lookup_at(d.fields, "volume_level"@, 5);
    lemma_pair_lookup_at(d.fields, "name"@, 6);
    lemma_pair_lookup_at(d.fields, "output_ids"@, 7);
    lemma_pair_lookup_at(d.fields, "volume_type"@, 8);
    lemma_pair_lookup_at(d.fields, "presets"@, 9);
    lemma_pair_lookup_at(d.fields, "extracted_preset"@, 10);
    assert(dec_action(DocValueV::Int(action_code_spec(s.action) as i64)) == Some(s.action));
    assert(dec_volume_type(DocValueV::Int(volume_type_code_spec(s.volume_type) as i64)) == Some(
        s.volume_type,
    ));
    lemma_presets_round_trip(s.presets, s.presets.len() as int);
    assert(s.presets.take(s.presets.len() as int) =~= s.presets);
    assert(settings_from_doc_spec(d) is Some);
    assert(settings_from_doc_spec(d)->0 =~= (SettingsV { extracted_preset: None, ..s }));
}

} // verus!
