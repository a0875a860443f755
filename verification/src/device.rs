//! Choice of the output configuration at the device boundary.
//!
//! When a device is opened, the configuration with the most output
//! channels among those whose maximum sample rate supports the desired
//! rate is preferred over the device's default; device enumeration and
//! stream construction themselves sit outside the library.

use vstd::prelude::*;

verus! {

/// What the choice reads of one supported output configuration.
pub struct OutputConfig {
    pub max_sample_rate: u32,
    pub channels: u16,
}

/// The fold the choice performs: starting from the default's channel
/// count, each configuration that supports the desired rate and has
/// strictly more channels than the best so far becomes the choice. The
/// result is the final channel count and the index of the chosen
/// configuration, `None` when the default stands.
pub open spec fn config_fold(configs: Seq<OutputConfig>, sr: u32, dflt: u16) -> (u16, Option<int>)
    decreases configs.len(),
{
    if configs.len() == 0 {
        (dflt, None::<int>)
    } else {
        let prior = config_fold(configs.drop_last(), sr, dflt);
        let c = configs.last();
        if c.max_sample_rate >= sr && c.channels > prior.0 {
            (c.channels, Some(configs.len() - 1))
        } else {
            prior
        }
    }
}

/// Selects the supported output configuration to open: the one the fold
/// chooses, or `None` when no eligible configuration beats the default's
/// channel count.
pub fn select_output_config(configs: &Vec<OutputConfig>, sr: u32, default_channels: u16) -> (r:
    Option<usize>)
    ensures
        match r {
            Some(idx) => config_fold(configs@, sr, default_channels).1 == Some(idx as int) && idx
                < configs@.len() && configs@[idx as int].channels == config_fold(
                configs@,
                sr,
                default_channels,
            ).0 && configs@[idx as int].max_sample_rate >= sr,
            None => config_fold(configs@, sr, default_channels).1 is None && config_fold(
                configs@,
                sr,
                default_channels,
            ).0 == default_channels,
        },
{
    let n: usize = configs.len();
    let mut i: usize = 0;
    let mut best: u16 = default_channels;
    let mut chosen: Option<usize> = None;
    while i < n
        invariant
            i <= n,
            n == configs.len(),
            config_fold(configs@.take(i as int), sr, default_channels).0 == best,
            match chosen {
                Some(idx) => config_fold(configs@.take(i as int), sr, default_channels).1 == Some(
                    idx as int,
                ) && idx < i && configs@[idx as int].channels == best
                    && configs@[idx as int].max_sample_rate >= sr,
                None => config_fold(configs@.take(i as int), sr, default_channels).1 is None
                    && best == default_channels,
            },
        decreases n - i,
    {
        proof {
            assert(configs@.take(i + 1).drop_last() =~= configs@.take(i as int));
            assert(configs@.take(i + 1).last() == configs@[i as int]);
        }
        if configs[i].max_sample_rate >= sr && configs[i].channels > best {
            best = configs[i].channels;
            chosen = Some(i);
        }
        i = i + 1;
    }
    proof {
        assert(configs@.take(n as int) =~= configs@);
    }
    chosen
}

} // verus!
