//! Records of the remote routing collections, the resolution stages, and
//! the resolver's error kinds.
//!
//! Each remote collection is modelled as a plain immutable record; the
//! filter chain of the resolver is then a sequence of pure operations on
//! these records, testable in isolation from the network.

use vstd::prelude::*;

verus! {

/// A space; at most one is expected, and only the first returned is used.
/// An empty `active_preset_id` means "no active preset".
pub struct Space {
    pub active_preset_id: String,
}

/// The currently active spatial-audio configuration: an ordered list of
/// beam-group references.
pub struct Preset {
    pub beam_group_ids: Vec<String>,
    pub name: String,
}

/// A named cluster of deployed beam instances.
pub struct BeamGroup {
    pub id: String,
    pub beam_instance_ids: Vec<String>,
}

/// A deployed, addressable occurrence of a beam definition.
pub struct BeamInstance {
    pub beam_id: String,
    pub id: String,
}

/// A many-to-many association row: which audio sources feed which beam
/// instances.
pub struct BeamAudioInput {
    pub beam_instance_id: String,
    pub audio_input_id: String,
}

/// A logical audio source with a human-readable name.
pub struct AudioInput {
    pub id: String,
    pub name: String,
}

impl AudioInput {
    /// A copy of this record, equal to it.
    pub fn duplicate(&self) -> (r: AudioInput)
        ensures
            r == *self,
    {
        AudioInput { id: self.id.clone(), name: self.name.clone() }
    }
}

/// Associates an audio input with a physical output channel index
/// (0-based).
pub struct AudioInputStreamMapping {
    pub audio_input_id: String,
    pub channel: u16,
}

/// The remote collections, in the order the resolution chain fetches
/// them. Each stage's fetch depends on the output of the prior stage, so
/// no reordering is possible.
#[derive(Clone, Copy, Debug, PartialEq, Eq, Structural)]
pub enum Stage {
    Spaces,
    Preset,
    BeamGroups,
    BeamInstances,
    BeamAudioInputs,
    AudioInputs,
    StreamMappings,
}

/// Why a resolution did not produce a channel map. Both kinds select the
/// generic fallback map at the caller; neither is fatal.
#[derive(Clone, Copy, Debug, PartialEq, Eq, Structural)]
pub enum ResolveError {
    /// The space's active-preset reference is empty: a legitimate,
    /// expected outcome, distinguishable from a transient fault.
    NoActivePreset,
    /// The fetch of the given stage's collection failed; resolution was
    /// aborted there and nothing from the remainder of the chain was
    /// used.
    FetchFailed(Stage),
}

/// The collection a stage fetches, as the operator knows it.
pub open spec fn stage_name(s: Stage) -> Seq<char> {
    match s {
        Stage::Spaces => "spaces"@,
        Stage::Preset => "preset"@,
        Stage::BeamGroups => "beam-groups"@,
        Stage::BeamInstances => "beam-instances"@,
        Stage::BeamAudioInputs => "beam-audio-inputs"@,
        Stage::AudioInputs => "audio-inputs"@,
        Stage::StreamMappings => "audio-input-stream-mappings"@,
    }
}

impl Stage {
    /// The collection this stage fetches.
    pub fn name(&self) -> (r: &'static str)
        ensures
            r@ == stage_name(*self),
    {
        match self {
            Stage::Spaces => "spaces",
            Stage::Preset => "preset",
            Stage::BeamGroups => "beam-groups",
            Stage::BeamInstances => "beam-instances",
            Stage::BeamAudioInputs => "beam-audio-inputs",
            Stage::AudioInputs => "audio-inputs",
            Stage::StreamMappings => "audio-input-stream-mappings",
        }
    }
}

impl ResolveError {
    /// A human-readable cause, printed by callers that fall back to the
    /// generic map; a fetch failure names the stage that failed.
    pub fn message(&self) -> (r: String)
        ensures
            self is NoActivePreset ==> r@ == "active preset is empty"@,
            self matches ResolveError::FetchFailed(stage) ==> r@ == "failed to fetch "@
                + stage_name(*stage),
    {
        match self {
            ResolveError::NoActivePreset => "active preset is empty".to_owned(),
            ResolveError::FetchFailed(stage) => {
                let mut r = "failed to fetch ".to_owned();
                r.append(stage.name());
                r
            },
        }
    }
}

} // verus!
