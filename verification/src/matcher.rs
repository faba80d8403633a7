//! Preset matcher: recognising when a live zone corresponds to a known
//! preset, and deriving a candidate preset from an ad-hoc grouping.

use vstd::prelude::*;
use crate::model::{OutputV, Preset, PresetV, Zone, ZoneV, VolumeType};

verus! {

/// A zone realises a preset exactly when it has the same number of outputs
/// and the same output id at every position (positional, not set, equality).
pub open spec fn zone_matches(p: PresetV, z: ZoneV) -> bool {
    &&& z.outputs.len() == p.output_ids.len()
    &&& forall|i: int| 0 <= i < p.output_ids.len() ==> p.output_ids[i] == z.outputs[i].output_id
}

/// Positional comparison of one preset against one zone.
pub fn preset_matches_zone(p: &Preset, z: &Zone) -> (r: bool)
    ensures
        r == zone_matches(p@, z@),
{
    if z.outputs.len() != p.output_ids.len() {
        return false;
    }
    let mut i: usize = 0;
    while i < p.output_ids.len()
        invariant
            i <= p.output_ids.len(),
            z.outputs.len() == p.output_ids.len(),
            forall|j: int| 0 <= j < i ==> p@.output_ids[j] == z@.outputs[j].output_id,
        decreases p.output_ids.len() - i,
    {
        if p.output_ids[i] != z.outputs[i].output_id {
            proof {
                assert(p@.output_ids[i as int] != z@.outputs[i as int].output_id);
            }
            return false;
        }
        i = i + 1;
    }
    true
}

/// Finds the first `(preset, zone)` pair, scanning presets in persisted
/// order and zones in reported order, where the zone realises the preset.
pub fn match_preset(presets: &Vec<Preset>, zones: &Vec<Zone>) -> (r: Option<(usize, usize)>)
    ensures
        match r {
            Some(pz) => {
                &&& pz.0 < presets.len()
                &&& pz.1 < zones.len()
                &&& zone_matches(presets.deep_view()[pz.0 as int], zones.deep_view()[pz.1 as int])
                &&& forall|p2: int, z2: int|
                    0 <= p2 < pz.0 && 0 <= z2 < zones.len() ==> !zone_matches(
                        presets.deep_view()[p2],
                        zones.deep_view()[z2],
                    )
                &&& forall|z2: int|
                    0 <= z2 < pz.1 ==> !zone_matches(
                        presets.deep_view()[pz.0 as int],
                        zones.deep_view()[z2],
                    )
            },
            None => forall|p2: int, z2: int|
                0 <= p2 < presets.len() && 0 <= z2 < zones.len() ==> !zone_matches(
                    presets.deep_view()[p2],
                    zones.deep_view()[z2],
                ),
        },
{
    let mut pi: usize = 0;
    while pi < presets.len()
        invariant
            pi <= presets.len(),
            forall|p2: int, z2: int|
                0 <= p2 < pi && 0 <= z2 < zones.len() ==> !zone_matches(
                    presets.deep_view()[p2],
                    zones.deep_view()[z2],
                ),
        decreases presets.len() - pi,
    {
        let mut zi: usize = 0;
        while zi < zones.len()
            invariant
                pi < presets.len(),
                zi <= zones.len(),
                forall|p2: int, z2: int|
                    0 <= p2 < pi && 0 <= z2 < zones.len() ==> !zone_matches(
                        presets.deep_view()[p2],
                        zones.deep_view()[z2],
                    ),
                forall|z2: int|
                    0 <= z2 < zi ==> !zone_matches(
                        presets.deep_view()[pi as int],
                        zones.deep_view()[z2],
                    ),
            decreases zones.len() - zi,
        {
            if preset_matches_zone(&presets[pi], &zones[zi]) {
                return Some((pi, zi));
            }
            zi = zi + 1;
        }
        pi = pi + 1;
    }
    None
}

/// The skeletal preset derived from one zone: its display name, its member
/// output ids in order, default volume policy.
pub open spec fn extracted_of(z: ZoneV) -> PresetV {
    PresetV {
        name: z.display_name,
        output_ids: z.outputs.map_values(|o: OutputV| o.output_id),
        volume_type: VolumeType::Untouched,
        volumes: Seq::empty(),
    }
}

/// The candidate preset the zone list yields, scanning from position `i`:
/// the skeleton of the first zone with more than one output.
pub open spec fn extract_from(zones: Seq<ZoneV>, i: int) -> Option<PresetV>
    decreases zones.len() - i,
{
    if i < 0 || i >= zones.len() {
        None
    } else if zones[i].outputs.len() > 1 {
        Some(extracted_of(zones[i]))
    } else {
        extract_from(zones, i + 1)
    }
}

/// Derives a candidate preset from the first zone that currently groups
/// more than one output; none when no zone is grouped.
pub fn extract_preset(zones: &Vec<Zone>) -> (r: Option<Preset>)
    ensures
        r.deep_view() == extract_from(zones.deep_view(), 0),
        match r {
            Some(p) => exists|k: int|
                {
                    &&& 0 <= k < zones.len()
                    &&& zones.deep_view()[k].outputs.len() > 1
                    &&& (forall|j: int| 0 <= j < k ==> zones.deep_view()[j].outputs.len() <= 1)
                    &&& p@ == extracted_of(zones.deep_view()[k])
                },
            None => forall|k: int| 0 <= k < zones.len() ==> zones.deep_view()[k].outputs.len() <= 1,
        },
{
    let mut k: usize = 0;
    while k < zones.len()
        invariant
            k <= zones.len(),
            forall|j: int| 0 <= j < k ==> zones.deep_view()[j].outputs.len() <= 1,
            extract_from(zones.deep_view(), 0) == extract_from(zones.deep_view(), k as int),
        decreases zones.len() - k,
    {
        if zones[k].outputs.len() > 1 {
            let zone = &zones[k];
            let name = zone.display_name.clone();
            let mut output_ids: Vec<String> = Vec::new();
            let mut i: usize = 0;
            while i < zone.outputs.len()
                invariant
                    i <= zone.outputs.len(),
                    output_ids@.len() == i,
                    output_ids.deep_view() =~= zone@.outputs.map_values(
                        |o: OutputV| o.output_id,
                    ).take(i as int),
                decreases zone.outputs.len() - i,
            {
                output_ids.push(zone.outputs[i].output_id.clone());
                i = i + 1;
            }
            let p = Preset {
                name,
                output_ids,
                volume_type: VolumeType::Untouched,
                volumes: Vec::new(),
            };
            proof {
                assert(p@.output_ids =~= extracted_of(zones.deep_view()[k as int]).output_ids);
                assert(p@.volumes =~= Seq::<(Seq<char>, i32)>::empty());
                assert(p@ =~= extracted_of(zones.deep_view()[k as int]));
            }
            return Some(p);
        }
        k = k + 1;
    }
    None
}

} // verus!
