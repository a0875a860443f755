//! The resolution run: a state machine stepped between fetches.
//!
//! Resolution alternates fetches with filter decisions. The caller owns
//! the I/O: it asks `pending` (or `request_path`) what to fetch next,
//! performs the GET, and hands the decoded collection back through the
//! matching `on_*` transition; a failed fetch of any stage goes through
//! `on_fetch_failed`. All filter logic and the conclusion live here, so
//! a failed chain can never yield a partial channel map, and a concluded
//! run never requests another fetch.

use vstd::prelude::*;
use vstd::pervasive::unreached;
use crate::channel_map::ChannelMap;
use crate::model::AudioInput;
use crate::model::AudioInputStreamMapping;
use crate::model::BeamAudioInput;
use crate::model::BeamGroup;
use crate::model::BeamInstance;
use crate::model::Preset;
use crate::model::ResolveError;
use crate::model::Space;
use crate::model::Stage;
use crate::resolver::audio_inputs_of_associations;
use crate::resolver::beam_instances_of_groups;
use crate::resolver::channel_map_of_mappings;
use crate::resolver::filter_audio_inputs;
use crate::resolver::inputs_of_associations;
use crate::resolver::instances_of_groups;
use crate::resolver::kept_inputs;
use crate::resolver::routed_map;

verus! {

/// One resolution run. A run is strictly linear: it concludes exactly
/// once, either with a channel map or with a failure, and has no retry
/// or re-entry transition.
pub enum Resolution {
    /// Awaiting the spaces collection.
    AwaitSpaces,
    /// Awaiting the active preset.
    AwaitPreset { preset_id: String },
    /// Awaiting all beam groups, to be filtered by the preset's list.
    AwaitBeamGroups { beam_group_ids: Vec<String> },
    /// Awaiting all beam instances. The canonical path uses this fetch
    /// only for its failure behaviour; the selected instance ids pass
    /// through unchanged.
    AwaitBeamInstances { beam_instance_ids: Vec<String> },
    /// Awaiting the beam-audio-input associations, to be filtered by the
    /// selected beam instances.
    AwaitBeamAudioInputs { beam_instance_ids: Vec<String> },
    /// Awaiting all audio inputs, to be filtered by the selected ids.
    AwaitAudioInputs { audio_input_ids: Vec<String> },
    /// Awaiting the stream mappings that place the kept inputs on
    /// physical channels.
    AwaitStreamMappings { inputs: Vec<AudioInput> },
    /// The run succeeded with a channel map.
    Resolved { map: ChannelMap },
    /// The run failed; the caller falls back to the generic map.
    Failed { error: ResolveError },
}

impl Resolution {
    /// The start of a run.
    pub fn new() -> (r: Resolution)
        ensures
            r is AwaitSpaces,
    {
        Resolution::AwaitSpaces
    }

    /// The stage whose collection must be fetched next, or `None` once
    /// the run has concluded.
    pub open spec fn spec_pending(self) -> Option<Stage> {
        match self {
            Resolution::AwaitSpaces => Some(Stage::Spaces),
            Resolution::AwaitPreset { .. } => Some(Stage::Preset),
            Resolution::AwaitBeamGroups { .. } => Some(Stage::BeamGroups),
            Resolution::AwaitBeamInstances { .. } => Some(Stage::BeamInstances),
            Resolution::AwaitBeamAudioInputs { .. } => Some(Stage::BeamAudioInputs),
            Resolution::AwaitAudioInputs { .. } => Some(Stage::AudioInputs),
            Resolution::AwaitStreamMappings { .. } => Some(Stage::StreamMappings),
            Resolution::Resolved { .. } => None,
            Resolution::Failed { .. } => None,
        }
    }

    /// The stage whose collection must be fetched next, or `None` once
    /// the run has concluded.
    pub fn pending(&self) -> (r: Option<Stage>)
        ensures
            r == self.spec_pending(),
    {
        match self {
            Resolution::AwaitSpaces => Some(Stage::Spaces),
            Resolution::AwaitPreset { .. } => Some(Stage::Preset),
            Resolution::AwaitBeamGroups { .. } => Some(Stage::BeamGroups),
            Resolution::AwaitBeamInstances { .. } => Some(Stage::BeamInstances),
            Resolution::AwaitBeamAudioInputs { .. } => Some(Stage::BeamAudioInputs),
            Resolution::AwaitAudioInputs { .. } => Some(Stage::AudioInputs),
            Resolution::AwaitStreamMappings { .. } => Some(Stage::StreamMappings),
            Resolution::Resolved { .. } => None,
            Resolution::Failed { .. } => None,
        }
    }

    /// The GET path of the pending fetch, relative to the base URL
    /// (which requires a trailing slash), or `None` once the run has
    /// concluded.
    pub open spec fn spec_request_path(self) -> Option<Seq<char>> {
        match self {
            Resolution::AwaitSpaces => Some("spaces"@),
            Resolution::AwaitPreset { preset_id } => Some("presets/"@ + preset_id@),
            Resolution::AwaitBeamGroups { .. } => Some("beam-groups"@),
            Resolution::AwaitBeamInstances { .. } => Some("beam-instances"@),
            Resolution::AwaitBeamAudioInputs { .. } => Some("beam-audio-inputs"@),
            Resolution::AwaitAudioInputs { .. } => Some("audio-inputs"@),
            Resolution::AwaitStreamMappings { .. } => Some("audio-input-stream-mappings"@),
            Resolution::Resolved { .. } => None,
            Resolution::Failed { .. } => None,
        }
    }

    /// The GET path of the pending fetch, relative to the base URL
    /// (which requires a trailing slash), or `None` once the run has
    /// concluded.
    pub fn request_path(&self) -> (r: Option<String>)
        ensures
            match r {
                Some(p) => self.spec_request_path() == Some(p@),
                None => self.spec_request_path() is None,
            },
    {
        match self {
            Resolution::AwaitSpaces => Some("spaces".to_owned()),
            Resolution::AwaitPreset { preset_id } => {
                let mut p = "presets/".to_owned();
                p.append(preset_id.as_str());
                Some(p)
            },
            Resolution::AwaitBeamGroups { .. } => Some("beam-groups".to_owned()),
            Resolution::AwaitBeamInstances { .. } => Some("beam-instances".to_owned()),
            Resolution::AwaitBeamAudioInputs { .. } => Some("beam-audio-inputs".to_owned()),
            Resolution::AwaitAudioInputs { .. } => Some("audio-inputs".to_owned()),
            Resolution::AwaitStreamMappings { .. } => Some(
                "audio-input-stream-mappings".to_owned(),
            ),
            Resolution::Resolved { .. } => None,
            Resolution::Failed { .. } => None,
        }
    }

    /// Step 1: the spaces arrived; only the first is used. An empty
    /// active-preset reference concludes the run at once with the
    /// distinguishable "no active preset" failure — an expected outcome,
    /// not a transient fault — so no further collection is fetched.
    pub fn on_spaces(self, spaces: &Vec<Space>) -> (r: Self)
        requires
            self is AwaitSpaces,
            spaces@.len() > 0,
        ensures
            spaces@[0].active_preset_id@.len() == 0 ==> r == (Resolution::Failed {
                error: ResolveError::NoActivePreset,
            }),
            spaces@[0].active_preset_id@.len() > 0 ==> (r matches Resolution::AwaitPreset {
                preset_id,
            } && preset_id@ == spaces@[0].active_preset_id@),
    {
        let first = &spaces[0];
        if first.active_preset_id.as_str().is_empty() {
            Resolution::Failed { error: ResolveError::NoActivePreset }
        } else {
            Resolution::AwaitPreset { preset_id: first.active_preset_id.clone() }
        }
    }

    /// Step 2: the active preset arrived; its beam-group id list drives
    /// the next filter.
    pub fn on_preset(self, preset: Preset) -> (r: Self)
        requires
            self is AwaitPreset,
        ensures
            r matches Resolution::AwaitBeamGroups { beam_group_ids } && beam_group_ids
                == preset.beam_group_ids,
    {
        Resolution::AwaitBeamGroups { beam_group_ids: preset.beam_group_ids }
    }

    /// Step 3: all beam groups arrived; keeps those the preset selected
    /// and unions their beam-instance id lists.
    pub fn on_beam_groups(self, groups: &Vec<BeamGroup>) -> (r: Self)
        requires
            self is AwaitBeamGroups,
        ensures
            r matches Resolution::AwaitBeamInstances { beam_instance_ids } && self
                matches Resolution::AwaitBeamGroups { beam_group_ids } && beam_instance_ids.deep_view()
                == instances_of_groups(beam_group_ids.deep_view(), groups@),
    {
        match self {
            Resolution::AwaitBeamGroups { beam_group_ids } => {
                Resolution::AwaitBeamInstances {
                    beam_instance_ids: beam_instances_of_groups(&beam_group_ids, groups),
                }
            },
            _ => unreached(),
        }
    }

    /// Step 4: all beam instances arrived. The canonical path needs this
    /// fetch only for its failure behaviour (a failed fetch here aborts
    /// the chain like any other); the selected instance ids pass through
    /// unchanged. `beam_ids_of_instances` serves resolutions that need
    /// the instances' beam ids.
    pub fn on_beam_instances(self, _instances: &Vec<BeamInstance>) -> (r: Self)
        requires
            self is AwaitBeamInstances,
        ensures
            r matches Resolution::AwaitBeamAudioInputs { beam_instance_ids } && self
                matches Resolution::AwaitBeamInstances { beam_instance_ids: prior } && beam_instance_ids
                == prior,
    {
        match self {
            Resolution::AwaitBeamInstances { beam_instance_ids } => {
                Resolution::AwaitBeamAudioInputs { beam_instance_ids }
            },
            _ => unreached(),
        }
    }

    /// Step 5: the beam-audio-input associations arrived; keeps those of
    /// the selected beam instances and collects the referenced
    /// audio-input ids, de-duplicated.
    pub fn on_beam_audio_inputs(self, assocs: &Vec<BeamAudioInput>) -> (r: Self)
        requires
            self is AwaitBeamAudioInputs,
        ensures
            r matches Resolution::AwaitAudioInputs { audio_input_ids } && self
                matches Resolution::AwaitBeamAudioInputs { beam_instance_ids } && audio_input_ids.deep_view()
                == inputs_of_associations(beam_instance_ids.deep_view(), assocs@),
    {
        match self {
            Resolution::AwaitBeamAudioInputs { beam_instance_ids } => {
                Resolution::AwaitAudioInputs {
                    audio_input_ids: audio_inputs_of_associations(&beam_instance_ids, assocs),
                }
            },
            _ => unreached(),
        }
    }

    /// Step 6: all audio inputs arrived; keeps the selected records,
    /// which carry the id -> name association for the final stage.
    pub fn on_audio_inputs(self, inputs: &Vec<AudioInput>) -> (r: Self)
        requires
            self is AwaitAudioInputs,
        ensures
            r matches Resolution::AwaitStreamMappings { inputs: kept } && self
                matches Resolution::AwaitAudioInputs { audio_input_ids } && kept@ == kept_inputs(
                audio_input_ids.deep_view(),
                inputs@,
            ),
    {
        match self {
            Resolution::AwaitAudioInputs { audio_input_ids } => {
                Resolution::AwaitStreamMappings {
                    inputs: filter_audio_inputs(&audio_input_ids, inputs),
                }
            },
            _ => unreached(),
        }
    }

    /// Step 7: the stream mappings arrived; the run concludes with the
    /// channel map of the kept inputs.
    pub fn on_stream_mappings(self, mappings: &Vec<AudioInputStreamMapping>) -> (r: Self)
        requires
            self is AwaitStreamMappings,
        ensures
            r matches Resolution::Resolved { map } && self matches Resolution::AwaitStreamMappings {
                inputs,
            } && map@ == routed_map(inputs@, mappings@),
    {
        match self {
            Resolution::AwaitStreamMappings { inputs } => {
                Resolution::Resolved { map: channel_map_of_mappings(&inputs, mappings) }
            },
            _ => unreached(),
        }
    }

    /// A fetch failed: the run concludes at once with that stage's
    /// failure. Nothing from the uncompleted remainder of the chain can
    /// reach the outcome.
    pub fn on_fetch_failed(self) -> (r: Self)
        requires
            self.spec_pending() is Some,
        ensures
            r == (Resolution::Failed {
                error: ResolveError::FetchFailed(self.spec_pending()->Some_0),
            }),
    {
        match self.pending() {
            Some(stage) => Resolution::Failed { error: ResolveError::FetchFailed(stage) },
            None => unreached(),
        }
    }

    /// The conclusion of the run: the channel map, or the failure that
    /// selects the generic fallback map at the caller.
    pub fn outcome(self) -> (r: Result<ChannelMap, ResolveError>)
        requires
            self is Resolved || self is Failed,
        ensures
            self matches Resolution::Resolved { map } ==> (r matches Ok(m) && m == map),
            self matches Resolution::Failed { error } ==> r == Err::<ChannelMap, ResolveError>(
                error,
            ),
    {
        match self {
            Resolution::Resolved { map } => Ok(map),
            Resolution::Failed { error } => Err(error),
            _ => unreached(),
        }
    }
}

/// The channel map of a fully successful resolution chain, as a function
/// of the pre-fetched collections.
pub open spec fn chain_map(
    preset: Preset,
    groups: Seq<BeamGroup>,
    assocs: Seq<BeamAudioInput>,
    inputs: Seq<AudioInput>,
    mappings: Seq<AudioInputStreamMapping>,
) -> Map<u16, Seq<char>> {
    routed_map(
        kept_inputs(
            inputs_of_associations(
                instances_of_groups(preset.beam_group_ids.deep_view(), groups),
                assocs,
            ),
            inputs,
        ),
        mappings,
    )
}

/// Law: resolution never invents channels. Every channel of a
/// successfully resolved map is the channel of some stream mapping whose
/// audio-input id survived every prior filter stage of the chain.
pub proof fn lemma_chain_never_invents_channels(
    preset: Preset,
    groups: Seq<BeamGroup>,
    assocs: Seq<BeamAudioInput>,
    inputs: Seq<AudioInput>,
    mappings: Seq<AudioInputStreamMapping>,
    c: u16,
)
    requires
        chain_map(preset, groups, assocs, inputs, mappings).contains_key(c),
    ensures
        exists|k: int|
            0 <= k < mappings.len() && mappings[k].channel == c && inputs_of_associations(
                instances_of_groups(preset.beam_group_ids.deep_view(), groups),
                assocs,
            ).contains(#[trigger] mappings[k].audio_input_id@) && crate::resolver::name_of(
                kept_inputs(
                    inputs_of_associations(
                        instances_of_groups(preset.beam_group_ids.deep_view(), groups),
                        assocs,
                    ),
                    inputs,
                ),
                mappings[k].audio_input_id@,
            ) is Some,
{
    let sel = inputs_of_associations(
        instances_of_groups(preset.beam_group_ids.deep_view(), groups),
        assocs,
    );
    let kept = kept_inputs(sel, inputs);
    crate::resolver::lemma_routed_map_channels(kept, mappings, c);
    let k0 = choose|k: int|
        0 <= k < mappings.len() && mappings[k].channel == c && crate::resolver::name_of(
            kept,
            mappings[k].audio_input_id@,
        ) is Some;
    crate::resolver::lemma_name_of_some(kept, mappings[k0].audio_input_id@);
    let j0 = choose|j: int| 0 <= j < kept.len() && #[trigger] kept[j].id@ == mappings[k0].audio_input_id@;
    crate::resolver::lemma_kept_inputs_selected(sel, inputs);
    assert(sel.contains(kept[j0].id@));
    assert(mappings[k0].channel == c && sel.contains(mappings[k0].audio_input_id@));
}

/// Law: a concluded run requests nothing further. In particular the
/// empty-preset conclusion and every fetch failure stop the chain at
/// once: no later collection is fetched, and the outcome is the total
/// failure alone, never a partial channel map.
pub proof fn lemma_concluded_run_requests_nothing(s: Resolution)
    requires
        s is Resolved || s is Failed,
    ensures
        s.spec_pending() is None,
        s.spec_request_path() is None,
{
}

} // verus!
