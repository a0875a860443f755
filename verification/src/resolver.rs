//! The channel-routing resolution chain.
//!
//! Five dependent stages, each filtering the next remote collection by
//! the previous stage's output set: space -> active preset -> beam
//! groups -> beam instances / beam-audio-input associations -> audio
//! inputs -> stream mappings. The result is the map from output channel
//! index to the matched audio input's name.
//!
//! The stage filters here are pure functions over pre-fetched
//! collections; `chain` holds the state machine that sequences them
//! between fetches.

use vstd::prelude::*;
use crate::channel_map::ChannelMap;
use crate::model::AudioInput;
use crate::model::AudioInputStreamMapping;
use crate::model::BeamAudioInput;
use crate::model::BeamGroup;
use crate::model::BeamInstance;

verus! {

/// The beam instances of the selected beam groups, in group order.
pub open spec fn instances_of_groups(selected: Seq<Seq<char>>, groups: Seq<BeamGroup>) -> Seq<
    Seq<char>,
>
    decreases groups.len(),
{
    if groups.len() == 0 {
        Seq::empty()
    } else {
        let prior = instances_of_groups(selected, groups.drop_last());
        if selected.contains(groups.last().id@) {
            prior + groups.last().beam_instance_ids.deep_view()
        } else {
            prior
        }
    }
}

/// The beam ids of the selected beam instances, in instance order.
pub open spec fn beams_of_instances(selected: Seq<Seq<char>>, instances: Seq<BeamInstance>) -> Seq<
    Seq<char>,
>
    decreases instances.len(),
{
    if instances.len() == 0 {
        Seq::empty()
    } else {
        let prior = beams_of_instances(selected, instances.drop_last());
        if selected.contains(instances.last().id@) {
            prior.push(instances.last().beam_id@)
        } else {
            prior
        }
    }
}

/// The audio-input ids referenced by associations whose beam instance is
/// selected, de-duplicated, first occurrence kept.
pub open spec fn inputs_of_associations(selected: Seq<Seq<char>>, assocs: Seq<BeamAudioInput>) -> Seq<
    Seq<char>,
>
    decreases assocs.len(),
{
    if assocs.len() == 0 {
        Seq::empty()
    } else {
        let prior = inputs_of_associations(selected, assocs.drop_last());
        let a = assocs.last();
        if selected.contains(a.beam_instance_id@) && !prior.contains(a.audio_input_id@) {
            prior.push(a.audio_input_id@)
        } else {
            prior
        }
    }
}

/// The audio-input records whose id is selected, in collection order.
pub open spec fn kept_inputs(selected: Seq<Seq<char>>, inputs: Seq<AudioInput>) -> Seq<AudioInput>
    decreases inputs.len(),
{
    if inputs.len() == 0 {
        Seq::empty()
    } else {
        let prior = kept_inputs(selected, inputs.drop_last());
        if selected.contains(inputs.last().id@) {
            prior.push(inputs.last())
        } else {
            prior
        }
    }
}

/// The name of the last input with the given id, if any. Taking the
/// last matters only when the collection holds two records with one id;
/// an id-keyed map filled by insertion keeps the later record, and the
/// lookup here keeps that behaviour.
pub open spec fn name_of(inputs: Seq<AudioInput>, id: Seq<char>) -> Option<Seq<char>>
    decreases inputs.len(),
{
    if inputs.len() == 0 {
        None
    } else if inputs.last().id@ == id {
        Some(inputs.last().name@)
    } else {
        name_of(inputs.drop_last(), id)
    }
}

/// The channel map derived from the stream mappings: for each mapping
/// whose audio input was kept, its channel maps to that input's name; a
/// later mapping of the same channel wins.
pub open spec fn routed_map(inputs: Seq<AudioInput>, mappings: Seq<AudioInputStreamMapping>) -> Map<
    u16,
    Seq<char>,
>
    decreases mappings.len(),
{
    if mappings.len() == 0 {
        Map::empty()
    } else {
        let prior = routed_map(inputs, mappings.drop_last());
        let m = mappings.last();
        match name_of(inputs, m.audio_input_id@) {
            Some(n) => prior.insert(m.channel, n),
            None => prior,
        }
    }
}

/// Whether `ids` holds a string equal to `x`.
fn contains_id(ids: &Vec<String>, x: &String) -> (r: bool)
    ensures
        r == ids.deep_view().contains(x@),
{
    let n: usize = ids.len();
    let mut k: usize = 0;
    while k < n
        invariant
            k <= n,
            n == ids.len(),
            forall|j: int| 0 <= j < k ==> ids.deep_view()[j] != x@,
        decreases n - k,
    {
        if ids[k].eq(x) {
            assert(ids.deep_view()[k as int] == x@);
            return true;
        }
        k = k + 1;
    }
    false
}

/// Stage filter: unions the beam-instance id lists of the beam groups
/// whose id is in `selected`.
pub fn beam_instances_of_groups(selected: &Vec<String>, groups: &Vec<BeamGroup>) -> (r: Vec<String>)
    ensures
        r.deep_view() == instances_of_groups(selected.deep_view(), groups@),
{
    let mut r: Vec<String> = Vec::new();
    let n: usize = groups.len();
    let mut i: usize = 0;
    while i < n
        invariant
            i <= n,
            n == groups.len(),
            r.deep_view() == instances_of_groups(selected.deep_view(), groups@.take(i as int)),
        decreases n - i,
    {
        if contains_id(selected, &groups[i].id) {
            let ids = &groups[i].beam_instance_ids;
            let ghost prior = instances_of_groups(selected.deep_view(), groups@.take(i as int));
            proof {
                assert(r.deep_view() =~= prior + ids.deep_view().take(0));
            }
            let m: usize = ids.len();
            let mut k: usize = 0;
            while k < m
                invariant
                    k <= m,
                    m == ids.len(),
                    i < n,
                    n == groups.len(),
                    ids == groups@[i as int].beam_instance_ids,
                    prior == instances_of_groups(selected.deep_view(), groups@.take(i as int)),
                    r.deep_view() == prior + ids.deep_view().take(k as int),
                decreases m - k,
            {
                let ghost pre_dv = r.deep_view();
                r.push(ids[k].clone());
                proof {
                    assert(pre_dv.len() == prior.len() + k);
                    assert(r@.len() == pre_dv.len() + 1);
                    assert(r.deep_view()[pre_dv.len() as int] == r@.last()@);
                    assert(r@.last()@ == ids.deep_view()[k as int]);
                    assert(ids.deep_view().len() == m);
                    let tgt = prior + ids.deep_view().take(k + 1);
                    assert(r.deep_view().len() == tgt.len());
                    assert forall|j: int| 0 <= j < r.deep_view().len() implies r.deep_view()[j]
                        == tgt[j] by {
                        if j < prior.len() {
                            assert(r.deep_view()[j] == pre_dv[j]);
                            assert(pre_dv[j] == prior[j]);
                            assert(tgt[j] == prior[j]);
                        } else if j < pre_dv.len() {
                            assert(r.deep_view()[j] == pre_dv[j]);
                            assert(pre_dv[j] == ids.deep_view().take(k as int)[j - prior.len()]);
                            assert(tgt[j] == ids.deep_view().take(k + 1)[j - prior.len()]);
                            assert(ids.deep_view().take(k as int)[j - prior.len()]
                                == ids.deep_view()[j - prior.len()]);
                            assert(ids.deep_view().take(k + 1)[j - prior.len()]
                                == ids.deep_view()[j - prior.len()]);
                        } else {
                            assert(j == pre_dv.len());
                            assert(r.deep_view()[j] == r@.last()@);
                            assert(tgt[j] == ids.deep_view().take(k + 1)[k as int]);
                            assert(ids.deep_view().take(k + 1)[k as int]
                                == ids.deep_view()[k as int]);
                        }
                    }
                    assert(r.deep_view() =~= tgt);
                }
                k = k + 1;
            }
            proof {
                assert(ids.deep_view().take(m as int) =~= ids.deep_view());
                assert(groups@.take(i + 1).drop_last() =~= groups@.take(i as int));
                assert(groups@.take(i + 1).last() == groups@[i as int]);
                assert(r.deep_view() =~= instances_of_groups(
                    selected.deep_view(),
                    groups@.take(i + 1),
                ));
            }
        } else {
            proof {
                assert(groups@.take(i + 1).drop_last() =~= groups@.take(i as int));
                assert(groups@.take(i + 1).last() == groups@[i as int]);
            }
        }
        i = i + 1;
    }
    proof {
        assert(groups@.take(n as int) =~= groups@);
    }
    r
}

/// Stage filter: the beam ids of the beam instances whose id is in
/// `selected`. The canonical resolution path fetches the instances only
/// to keep the chain's failure behaviour; the beam ids themselves are
/// needed when beam-name-based resolution is required.
pub fn beam_ids_of_instances(selected: &Vec<String>, instances: &Vec<BeamInstance>) -> (r: Vec<
    String,
>)
    ensures
        r.deep_view() == beams_of_instances(selected.deep_view(), instances@),
{
    let mut r: Vec<String> = Vec::new();
    let n: usize = instances.len();
    let mut i: usize = 0;
    while i < n
        invariant
            i <= n,
            n == instances.len(),
            r.deep_view() == beams_of_instances(selected.deep_view(), instances@.take(i as int)),
        decreases n - i,
    {
        proof {
            assert(instances@.take(i + 1).drop_last() =~= instances@.take(i as int));
            assert(instances@.take(i + 1).last() == instances@[i as int]);
        }
        if contains_id(selected, &instances[i].id) {
            r.push(instances[i].beam_id.clone());
            proof {
                assert(r.deep_view() =~= beams_of_instances(
                    selected.deep_view(),
                    instances@.take(i as int),
                ).push(instances@[i as int].beam_id@));
            }
        }
        i = i + 1;
    }
    proof {
        assert(instances@.take(n as int) =~= instances@);
    }
    r
}

/// Stage filter: the audio-input ids fed into the selected beam
/// instances, de-duplicated.
pub fn audio_inputs_of_associations(selected: &Vec<String>, assocs: &Vec<BeamAudioInput>) -> (r:
    Vec<String>)
    ensures
        r.deep_view() == inputs_of_associations(selected.deep_view(), assocs@),
{
    let mut r: Vec<String> = Vec::new();
    let n: usize = assocs.len();
    let mut i: usize = 0;
    while i < n
        invariant
            i <= n,
            n == assocs.len(),
            r.deep_view() == inputs_of_associations(selected.deep_view(), assocs@.take(i as int)),
        decreases n - i,
    {
        proof {
            assert(assocs@.take(i + 1).drop_last() =~= assocs@.take(i as int));
            assert(assocs@.take(i + 1).last() == assocs@[i as int]);
        }
        if contains_id(selected, &assocs[i].beam_instance_id) && !contains_id(
            &r,
            &assocs[i].audio_input_id,
        ) {
            r.push(assocs[i].audio_input_id.clone());
            proof {
                assert(r.deep_view() =~= inputs_of_associations(
                    selected.deep_view(),
                    assocs@.take(i as int),
                ).push(assocs@[i as int].audio_input_id@));
            }
        }
        i = i + 1;
    }
    proof {
        assert(assocs@.take(n as int) =~= assocs@);
    }
    r
}

/// Stage filter: the audio-input records whose id is in `selected`.
pub fn filter_audio_inputs(selected: &Vec<String>, inputs: &Vec<AudioInput>) -> (r: Vec<AudioInput>)
    ensures
        r@ == kept_inputs(selected.deep_view(), inputs@),
{
    let mut r: Vec<AudioInput> = Vec::new();
    let n: usize = inputs.len();
    let mut i: usize = 0;
    while i < n
        invariant
            i <= n,
            n == inputs.len(),
            r@ == kept_inputs(selected.deep_view(), inputs@.take(i as int)),
        decreases n - i,
    {
        proof {
            assert(inputs@.take(i + 1).drop_last() =~= inputs@.take(i as int));
            assert(inputs@.take(i + 1).last() == inputs@[i as int]);
        }
        if contains_id(selected, &inputs[i].id) {
            r.push(inputs[i].duplicate());
        }
        i = i + 1;
    }
    proof {
        assert(inputs@.take(n as int) =~= inputs@);
    }
    r
}

/// The name of the last input in `inputs` whose id equals `id`.
fn find_name(inputs: &Vec<AudioInput>, id: &String) -> (r: Option<String>)
    ensures
        match r {
            Some(nm) => name_of(inputs@, id@) == Some(nm@),
            None => name_of(inputs@, id@) is None,
        },
{
    let n: usize = inputs.len();
    let mut i: usize = n;
    proof {
        assert(inputs@.take(n as int) =~= inputs@);
    }
    while i > 0
        invariant
            i <= n,
            n == inputs.len(),
            name_of(inputs@, id@) == name_of(inputs@.take(i as int), id@),
        decreases i,
    {
        i = i - 1;
        proof {
            assert(inputs@.take(i + 1).last() == inputs@[i as int]);
            assert(inputs@.take(i + 1).drop_last() =~= inputs@.take(i as int));
        }
        if inputs[i].id.eq(id) {
            return Some(inputs[i].name.clone());
        }
    }
    proof {
        assert(inputs@.take(0) =~= Seq::<AudioInput>::empty());
    }
    None
}

/// Final stage: builds the channel map from the stream mappings, given
/// the kept audio-input records. A mapping whose audio input was not
/// kept contributes nothing; a channel with no mapping is simply absent.
pub fn channel_map_of_mappings(
    inputs: &Vec<AudioInput>,
    mappings: &Vec<AudioInputStreamMapping>,
) -> (r: ChannelMap)
    ensures
        r@ == routed_map(inputs@, mappings@),
{
    let mut r = ChannelMap::new();
    let n: usize = mappings.len();
    let mut i: usize = 0;
    while i < n
        invariant
            i <= n,
            n == mappings.len(),
            r@ == routed_map(inputs@, mappings@.take(i as int)),
        decreases n - i,
    {
        proof {
            assert(mappings@.take(i + 1).drop_last() =~= mappings@.take(i as int));
            assert(mappings@.take(i + 1).last() == mappings@[i as int]);
        }
        match find_name(inputs, &mappings[i].audio_input_id) {
            Some(nm) => {
                r.insert(mappings[i].channel, nm);
            },
            None => {},
        }
        i = i + 1;
    }
    proof {
        assert(mappings@.take(n as int) =~= mappings@);
    }
    r
}

/// Law: resolution never invents channels. Every channel of the routed
/// map is the channel of some stream mapping whose audio-input id names
/// one of the kept inputs.
pub proof fn lemma_routed_map_channels(
    inputs: Seq<AudioInput>,
    mappings: Seq<AudioInputStreamMapping>,
    c: u16,
)
    requires
        routed_map(inputs, mappings).contains_key(c),
    ensures
        exists|k: int|
            0 <= k < mappings.len() && mappings[k].channel == c && name_of(
                inputs,
                mappings[k].audio_input_id@,
            ) is Some,
    decreases mappings.len(),
{
    let m = mappings.last();
    if name_of(inputs, m.audio_input_id@) is Some && m.channel == c {
        assert(mappings[mappings.len() - 1].channel == c);
    } else {
        lemma_routed_map_channels(inputs, mappings.drop_last(), c);
        let k0 = choose|k: int|
            0 <= k < mappings.drop_last().len() && mappings.drop_last()[k].channel == c && name_of(
                inputs,
                mappings.drop_last()[k].audio_input_id@,
            ) is Some;
        assert(mappings[k0].channel == c && name_of(inputs, mappings[k0].audio_input_id@) is Some);
    }
}

/// Every kept input's id is in the selected set.
pub proof fn lemma_kept_inputs_selected(selected: Seq<Seq<char>>, inputs: Seq<AudioInput>)
    ensures
        forall|j: int|
            0 <= j < kept_inputs(selected, inputs).len() ==> selected.contains(
                #[trigger] kept_inputs(selected, inputs)[j].id@,
            ),
    decreases inputs.len(),
{
    if inputs.len() > 0 {
        lemma_kept_inputs_selected(selected, inputs.drop_last());
        let prior = kept_inputs(selected, inputs.drop_last());
        let cur = kept_inputs(selected, inputs);
        assert forall|j: int| 0 <= j < cur.len() implies selected.contains(
            #[trigger] cur[j].id@,
        ) by {
            if selected.contains(inputs.last().id@) {
                assert(cur == prior.push(inputs.last()));
                assert(cur.len() == prior.len() + 1);
                if j < prior.len() {
                    assert(cur[j] == prior[j]);
                    assert(selected.contains(prior[j].id@));
                } else {
                    assert(cur[j] == inputs.last());
                }
            } else {
                assert(cur == prior);
                assert(selected.contains(prior[j].id@));
            }
        }
    }
}

/// A successful name lookup names an input of the sequence.
pub proof fn lemma_name_of_some(inputs: Seq<AudioInput>, id: Seq<char>)
    requires
        name_of(inputs, id) is Some,
    ensures
        exists|j: int| 0 <= j < inputs.len() && #[trigger] inputs[j].id@ == id,
    decreases inputs.len(),
{
    if inputs.len() > 0 && inputs.last().id@ != id {
        lemma_name_of_some(inputs.drop_last(), id);
        let j0 = choose|j: int|
            0 <= j < inputs.drop_last().len() && #[trigger] inputs.drop_last()[j].id@ == id;
        assert(inputs[j0].id@ == id);
    }
}

} // verus!
