//! The resolved channel map: physical output channel index -> display
//! label.
//!
//! This is the sole artifact the resolver hands to the player. Its
//! mathematical model is a finite `Map<u16, Seq<char>>`; a later insert
//! of an already-present channel replaces that channel's label.

use vstd::prelude::*;
use crate::text::decimal_string;
use crate::text::lemma_decimal_injective;
use crate::text::spec_decimal;

verus! {

/// One resolved association of a channel index with a display label.
#[derive(Debug)]
pub struct ChannelEntry {
    pub channel: u16,
    pub label: String,
}

/// The map described by a run of entries, later entries shadowing
/// earlier ones with the same channel.
pub open spec fn map_of_entries(s: Seq<ChannelEntry>) -> Map<u16, Seq<char>>
    decreases s.len(),
{
    if s.len() == 0 {
        Map::empty()
    } else {
        map_of_entries(s.drop_last()).insert(s.last().channel, s.last().label@)
    }
}

/// A mapping from 0-based output channel index to a display label.
#[derive(Debug)]
pub struct ChannelMap {
    entries: Vec<ChannelEntry>,
}

impl View for ChannelMap {
    type V = Map<u16, Seq<char>>;

    closed spec fn view(&self) -> Map<u16, Seq<char>> {
        map_of_entries(self.entries@)
    }
}

/// A lookup is unaffected by entries at positions `i..` whose channel
/// differs from the channel looked up.
proof fn lemma_lookup_high(s: Seq<ChannelEntry>, c: u16, i: int)
    requires
        0 <= i <= s.len(),
        forall|j: int| i <= j < s.len() ==> s[j].channel != c,
    ensures
        map_of_entries(s).contains_key(c) == map_of_entries(s.take(i)).contains_key(c),
        map_of_entries(s).contains_key(c) ==> map_of_entries(s)[c] == map_of_entries(s.take(i))[c],
    decreases s.len() - i,
{
    if i == s.len() {
        assert(s.take(i) =~= s);
    } else {
        let s1 = s.drop_last();
        lemma_lookup_high(s1, c, i);
        assert(s1.take(i) =~= s.take(i));
    }
}

impl ChannelMap {
    /// An empty channel map.
    pub fn new() -> (r: ChannelMap)
        ensures
            r@ == Map::<u16, Seq<char>>::empty(),
    {
        ChannelMap { entries: Vec::new() }
    }

    /// Associates `channel` with `label`, replacing any earlier label of
    /// that channel.
    pub fn insert(&mut self, channel: u16, label: String)
        ensures
            final(self)@ == old(self)@.insert(channel, label@),
    {
        self.entries.push(ChannelEntry { channel, label });
        proof {
            assert(self.entries@.drop_last() =~= old(self).entries@);
        }
    }

    /// The label of `channel`, if the map holds that channel.
    pub fn get(&self, channel: u16) -> (r: Option<&String>)
        ensures
            match r {
                Some(l) => self@.contains_key(channel) && self@[channel] == l@,
                None => !self@.contains_key(channel),
            },
    {
        let n: usize = self.entries.len();
        let mut j: usize = n;
        while j > 0
            invariant
                j <= n,
                n == self.entries.len(),
                forall|k: int| j <= k < n ==> self.entries@[k].channel != channel,
            decreases j,
        {
            j = j - 1;
            if self.entries[j].channel == channel {
                proof {
                    lemma_lookup_high(self.entries@, channel, j + 1);
                    assert(self.entries@.take(j + 1).drop_last() =~= self.entries@.take(j as int));
                    assert(self.entries@.take(j + 1).last() == self.entries@[j as int]);
                }
                return Some(&self.entries[j].label);
            }
        }
        proof {
            lemma_lookup_high(self.entries@, channel, 0);
            assert(self.entries@.take(0) =~= Seq::<ChannelEntry>::empty());
        }
        None
    }
}

/// The generic fallback map for a device with `n` output channels: every
/// channel below `n`, labelled with its own stringified index.
pub open spec fn generic_map(n: u16) -> Map<u16, Seq<char>> {
    Map::new(|c: u16| c < n, |c: u16| spec_decimal(c as nat))
}

/// Builds the generic fallback map for a device with `device_channels`
/// output channels. Callers use it whenever resolution fails or no base
/// URL is configured, so that playback proceeds on all physical channels.
pub fn generic_channel_map(device_channels: u16) -> (r: ChannelMap)
    ensures
        r@ == generic_map(device_channels),
{
    let mut r = ChannelMap::new();
    proof {
        assert(r@ =~= generic_map(0));
    }
    let mut i: u16 = 0;
    while i < device_channels
        invariant
            i <= device_channels,
            r@ == generic_map(i),
        decreases device_channels - i,
    {
        r.insert(i, decimal_string(i as u32));
        proof {
            assert(generic_map(i).insert(i, spec_decimal(i as nat)) =~= generic_map((i + 1) as u16));
        }
        i = i + 1;
    }
    r
}

/// Law: the generic fallback map is total and bijective on the device's
/// channels. For channel count `n` it holds exactly the channels
/// `0..n-1`; each is labelled with its own stringified index, and
/// distinct channels carry distinct labels.
pub proof fn lemma_generic_map_bijective(n: u16, c1: u16, c2: u16)
    requires
        c1 < n,
        c2 < n,
    ensures
        generic_map(n).contains_key(c1),
        generic_map(n)[c1] == spec_decimal(c1 as nat),
        generic_map(n)[c1] == generic_map(n)[c2] ==> c1 == c2,
        forall|c: u16| generic_map(n).contains_key(c) ==> c < n,
{
    lemma_decimal_injective(c1 as nat, c2 as nat);
}

} // verus!
