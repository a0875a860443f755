//! Planning of the per-channel verification playback.
//!
//! Given the channel map, the player walks the device's channels in
//! ascending order; for each mapped channel below the device's channel
//! count it speaks one piece of content (the receiver's name or the
//! 1-based channel number) with every other channel muted. The plan and
//! the gain vectors are computed here; synthesis, decoding and the
//! device sit outside and consume the plan step by step.

use vstd::prelude::*;
use crate::channel_map::ChannelMap;
use crate::channel_map::generic_channel_map;
use crate::channel_map::generic_map;
use crate::model::ResolveError;
use crate::text::decimal_string;
use crate::text::spec_decimal;

verus! {

/// What one playback step speaks: if `receiver_mode` is on, the
/// receiver's label followed by ", checked"; otherwise the 1-based
/// channel number as digits.
pub open spec fn spec_spoken_content(label: Seq<char>, channel: u16, receiver_mode: bool) -> Seq<
    char,
> {
    if receiver_mode {
        label + ", checked"@
    } else {
        spec_decimal(channel as nat + 1)
    }
}

/// Composes the spoken content for one channel.
pub fn spoken_content(label: &str, channel: u16, receiver_mode: bool) -> (r: String)
    ensures
        r@ == spec_spoken_content(label@, channel, receiver_mode),
{
    if receiver_mode {
        let mut r = label.to_owned();
        r.append(", checked");
        r
    } else {
        decimal_string(channel as u32 + 1)
    }
}

/// One planned playback: speak `content` on `channel`, all other
/// channels muted.
pub struct PlaybackStep {
    pub channel: u16,
    pub content: String,
}

/// Plans the playback run for `map` on a device with `device_channels`
/// output channels: one step per mapped channel below the device's
/// channel count (entries beyond capacity are dropped silently here, not
/// by the resolver), in ascending channel order, each speaking that
/// channel's content.
pub fn playback_steps(map: &ChannelMap, device_channels: u16, receiver_mode: bool) -> (r: Vec<
    PlaybackStep,
>)
    ensures
        forall|k: int|
            0 <= k < r@.len() ==> (#[trigger] r@[k]).channel < device_channels
                && map@.contains_key(r@[k].channel) && r@[k].content@ == spec_spoken_content(
                map@[r@[k].channel],
                r@[k].channel,
                receiver_mode,
            ),
        forall|k1: int, k2: int|
            0 <= k1 < k2 < r@.len() ==> r@[k1].channel < r@[k2].channel,
        forall|c: u16|
            c < device_channels && map@.contains_key(c) ==> exists|k: int|
                0 <= k < r@.len() && #[trigger] r@[k].channel == c,
{
    let mut r: Vec<PlaybackStep> = Vec::new();
    let mut c: u16 = 0;
    while c < device_channels
        invariant
            c <= device_channels,
            forall|k: int|
                0 <= k < r@.len() ==> (#[trigger] r@[k]).channel < c && map@.contains_key(
                    r@[k].channel,
                ) && r@[k].content@ == spec_spoken_content(
                    map@[r@[k].channel],
                    r@[k].channel,
                    receiver_mode,
                ),
            forall|k1: int, k2: int|
                0 <= k1 < k2 < r@.len() ==> r@[k1].channel < r@[k2].channel,
            forall|cc: u16|
                cc < c && map@.contains_key(cc) ==> exists|k: int|
                    0 <= k < r@.len() && #[trigger] r@[k].channel == cc,
        decreases device_channels - c,
    {
        match map.get(c) {
            Some(label) => {
                let content = spoken_content(label.as_str(), c, receiver_mode);
                let ghost pre_len = r@.len();
                let ghost snap = r@;
                r.push(PlaybackStep { channel: c, content });
                proof {
                    assert(r@[pre_len as int].channel == c);
                    assert(r@[pre_len as int].content@ == spec_spoken_content(
                        map@[c],
                        c,
                        receiver_mode,
                    ));
                    assert(forall|k: int| 0 <= k < pre_len ==> r@[k] == snap[k]);
                    assert forall|cc: u16| cc < c + 1 && map@.contains_key(cc) implies exists|k: int|
                        0 <= k < r@.len() && #[trigger] r@[k].channel == cc by {
                        if cc < c {
                            let k0 = choose|k: int|
                                0 <= k < snap.len() && #[trigger] snap[k].channel == cc;
                            assert(r@[k0].channel == cc);
                        } else {
                            assert(r@[pre_len as int].channel == cc);
                        }
                    }
                }
            },
            None => {},
        }
        c = c + 1;
    }
    r
}

/// Builds the per-channel gain vector that isolates one channel: length
/// `count` (the device's channel count), the gain at index `channel`,
/// and the muted level everywhere else.
pub fn per_channel_gains<T: Copy>(channel: usize, count: usize, gain: T, muted: T) -> (r: Vec<T>)
    requires
        channel < count,
    ensures
        r@.len() == count,
        r@[channel as int] == gain,
        forall|j: int| 0 <= j < count && j != channel ==> r@[j] == muted,
{
    let mut r: Vec<T> = Vec::new();
    let mut j: usize = 0;
    while j < count
        invariant
            j <= count,
            r@.len() == j,
            channel < count,
            channel < j ==> r@[channel as int] == gain,
            forall|i: int| 0 <= i < j && i != channel ==> r@[i] == muted,
        decreases count - j,
    {
        if j == channel {
            r.push(gain);
        } else {
            r.push(muted);
        }
        j = j + 1;
    }
    r
}

/// The caller-visible fallback contract: a successful resolution plays
/// as resolved; a failed one — for any reason, the empty active preset
/// included — plays on the generic map of all device channels. Failure
/// is never fatal here.
pub fn resolved_or_generic(outcome: Result<ChannelMap, ResolveError>, device_channels: u16) -> (r:
    ChannelMap)
    ensures
        outcome matches Ok(map) ==> r == map,
        outcome is Err ==> r@ == generic_map(device_channels),
{
    match outcome {
        Ok(map) => map,
        Err(_) => generic_channel_map(device_channels),
    }
}

} // verus!
