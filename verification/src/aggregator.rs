//! The running peak of every channel between two readings.

use vstd::prelude::*;

verus! {

/// A level: thousandths of full scale. A peak of 0.95 is the level 950.
pub type Level = u32;

/// The level of a signal at full scale.
pub const FULL_SCALE: Level = 1000;

/// The higher of two levels.
pub open spec fn higher(a: Level, b: Level) -> Level {
    if a >= b {
        a
    } else {
        b
    }
}

/// `n` channels that have seen no signal.
pub open spec fn silence(n: nat) -> Seq<Level> {
    Seq::new(n, |i: int| 0u32)
}

/// The levels after `channel` has reported a block whose peak is `peak`.
pub open spec fn raised(levels: Seq<Level>, channel: int, peak: Level) -> Seq<Level> {
    levels.update(channel, higher(levels[channel], peak))
}

/// One report of the audio callback: the peak of one block of one channel.
#[derive(Clone, Copy, Debug, PartialEq, Eq, Structural)]
pub struct BlockPeak {
    pub channel: usize,
    pub peak: Level,
}

/// Every report of `feed` names a channel below `channels`.
pub open spec fn feed_fits(feed: Seq<BlockPeak>, channels: nat) -> bool {
    forall|k: int| 0 <= k < feed.len() ==> (#[trigger] feed[k]).channel < channels
}

/// The levels after the reports of `feed` have come in, first to last.
pub open spec fn fed(levels: Seq<Level>, feed: Seq<BlockPeak>) -> Seq<Level>
    decreases feed.len(),
{
    if feed.len() == 0 {
        levels
    } else {
        raised(fed(levels, feed.drop_last()), feed.last().channel as int, feed.last().peak)
    }
}

/// The highest peak that `feed` reports for `channel`, 0 if it reports none.
pub open spec fn highest_peak(feed: Seq<BlockPeak>, channel: int) -> Level
    decreases feed.len(),
{
    if feed.len() == 0 {
        0
    } else if feed.last().channel == channel {
        higher(highest_peak(feed.drop_last(), channel), feed.last().peak)
    } else {
        highest_peak(feed.drop_last(), channel)
    }
}

/// What a reading hands out and what it leaves behind.
pub open spec fn reading(levels: Seq<Level>) -> (Seq<Level>, Seq<Level>) {
    (levels, silence(levels.len()))
}

/// One running peak per channel.
///
/// The audio callback raises a channel's level with [`LevelAggregator::update`];
/// the consumer exchanges the whole vector for a silent one with
/// [`LevelAggregator::take_and_reset`] or [`LevelAggregator::exchange`]. An
/// update compares and stores one number; an exchange swaps two vectors.
pub struct LevelAggregator {
    levels: Vec<Level>,
}

impl View for LevelAggregator {
    type V = Seq<Level>;

    closed spec fn view(&self) -> Seq<Level> {
        self.levels@
    }
}

/// A vector of `n` zero levels.
pub fn silent_levels(n: usize) -> (levels: Vec<Level>)
    ensures
        levels@ == silence(n as nat),
{
    let mut levels: Vec<Level> = Vec::with_capacity(n);
    let mut i: usize = 0;
    while i < n
        invariant
            i <= n,
            levels@ == silence(i as nat),
        decreases n - i,
    {
        levels.push(0);
        i += 1;
    }
    levels
}

impl LevelAggregator {
    /// An aggregator for `channel_count` channels, all silent.
    pub fn new(channel_count: usize) -> (agg: Self)
        ensures
            agg@ == silence(channel_count as nat),
    {
        LevelAggregator { levels: silent_levels(channel_count) }
    }

    /// The number of channels.
    pub fn channel_count(&self) -> (n: usize)
        ensures
            n == self@.len(),
    {
        self.levels.len()
    }

    /// The level that `channel` has reached since the last reading.
    pub fn level(&self, channel: usize) -> (level: Level)
        requires
            channel < self@.len(),
        ensures
            level == self@[channel as int],
    {
        self.levels[channel]
    }

    /// Takes in the peak of one block of `channel`: the channel's level
    /// becomes the higher of what it was and `block_peak`, and no other
    /// channel changes.
    pub fn update(&mut self, channel: usize, block_peak: Level)
        requires
            channel < old(self)@.len(),
        ensures
            final(self)@ == raised(old(self)@, channel as int, block_peak),
    {
        if block_peak > self.levels[channel] {
            self.levels[channel] = block_peak;
        }
        assert(self.levels@ =~= raised(old(self)@, channel as int, block_peak));
    }

    /// Takes in a sequence of reports, first to last, as so many calls of
    /// [`LevelAggregator::update`].
    pub fn feed(&mut self, reports: &Vec<BlockPeak>)
        requires
            feed_fits(reports@, old(self)@.len()),
        ensures
            final(self)@ == fed(old(self)@, reports@),
    {
        let mut i: usize = 0;
        assert(reports@.take(0) =~= Seq::<BlockPeak>::empty());
        while i < reports.len()
            invariant
                i <= reports@.len(),
                feed_fits(reports@, old(self)@.len()),
                self@.len() == old(self)@.len(),
                self@ == fed(old(self)@, reports@.take(i as int)),
            decreases reports@.len() - i,
        {
            proof {
                let upto = reports@.take(i + 1);
                assert(upto.drop_last() =~= reports@.take(i as int));
                assert(upto.last() == reports@[i as int]);
            }
            let report = reports[i];
            self.update(report.channel, report.peak);
            i += 1;
        }
        assert(reports@.take(i as int) =~= reports@);
    }

    /// Hands out the levels reached since the last reading in exchange for
    /// `fresh`, a silent vector of as many channels. Nothing is allocated:
    /// a caller that shares the aggregator under a lock makes `fresh` before
    /// it takes the lock.
    pub fn exchange(&mut self, fresh: Vec<Level>) -> (snapshot: Vec<Level>)
        requires
            fresh@ == silence(old(self)@.len()),
        ensures
            (snapshot@, final(self)@) == reading(old(self)@),
    {
        let mut snapshot = fresh;
        std::mem::swap(&mut snapshot, &mut self.levels);
        snapshot
    }

    /// Hands out the levels reached since the last reading and leaves every
    /// channel at zero.
    pub fn take_and_reset(&mut self) -> (snapshot: Vec<Level>)
        ensures
            (snapshot@, final(self)@) == reading(old(self)@),
    {
        let fresh = silent_levels(self.levels.len());
        self.exchange(fresh)
    }
}

/// Feeding keeps the number of channels.
pub proof fn lemma_fed_len(levels: Seq<Level>, feed: Seq<BlockPeak>)
    requires
        feed_fits(feed, levels.len()),
    ensures
        fed(levels, feed).len() == levels.len(),
    decreases feed.len(),
{
    if feed.len() > 0 {
        lemma_feed_fits_earlier(feed, levels.len());
        lemma_fed_len(levels, feed.drop_last());
    }
}

/// A feed that fits still fits without its last report.
proof fn lemma_feed_fits_earlier(feed: Seq<BlockPeak>, channels: nat)
    requires
        feed_fits(feed, channels),
        feed.len() > 0,
    ensures
        feed_fits(feed.drop_last(), channels),
        feed.last().channel < channels,
{
    let earlier = feed.drop_last();
    assert forall|k: int| 0 <= k < earlier.len() implies (#[trigger] earlier[k]).channel
        < channels by {
        assert(earlier[k] == feed[k]);
    }
}

/// The highest peak of a channel is a maximum: no report for the channel
/// lies above it, and it is the peak of one of them, or 0 where the channel
/// has no report above 0.
pub proof fn lemma_highest_peak_is_the_maximum(feed: Seq<BlockPeak>, channel: int)
    ensures
        forall|k: int|
            0 <= k < feed.len() && (#[trigger] feed[k]).channel == channel ==> feed[k].peak
                <= highest_peak(feed, channel),
        highest_peak(feed, channel) == 0 || exists|k: int|
            0 <= k < feed.len() && (#[trigger] feed[k]).channel == channel && feed[k].peak
                == highest_peak(feed, channel),
    decreases feed.len(),
{
    if feed.len() > 0 {
        let earlier = feed.drop_last();
        lemma_highest_peak_is_the_maximum(earlier, channel);
        assert forall|k: int|
            0 <= k < feed.len() && (#[trigger] feed[k]).channel == channel implies feed[k].peak
            <= highest_peak(feed, channel) by {
            if k < earlier.len() {
                assert(earlier[k] == feed[k]);
            }
        }
        if highest_peak(feed, channel) != 0 {
            if feed.last().channel == channel && feed.last().peak == highest_peak(feed, channel) {
                assert(feed[feed.len() - 1].channel == channel);
            } else {
                let k = choose|k: int|
                    0 <= k < earlier.len() && (#[trigger] earlier[k]).channel == channel
                        && earlier[k].peak == highest_peak(earlier, channel);
                assert(feed[k] == earlier[k]);
            }
        }
    }
}

/// After any sequence of reports, each channel stands at the higher of the
/// level it started from and the highest peak reported for it.
pub proof fn lemma_fed_is_running_peak(levels: Seq<Level>, feed: Seq<BlockPeak>, channel: int)
    requires
        feed_fits(feed, levels.len()),
        0 <= channel < levels.len(),
    ensures
        fed(levels, feed).len() == levels.len(),
        fed(levels, feed)[channel] == higher(levels[channel], highest_peak(feed, channel)),
    decreases feed.len(),
{
    lemma_fed_len(levels, feed);
    if feed.len() > 0 {
        let earlier = feed.drop_last();
        lemma_feed_fits_earlier(feed, levels.len());
        lemma_fed_is_running_peak(levels, earlier, channel);
    }
}

/// A reading after a sequence of reports that began in silence hands out, for
/// every channel, the highest peak reported for it, and leaves silence.
pub proof fn lemma_reading_reports_peaks(channels: nat, feed: Seq<BlockPeak>, channel: int)
    requires
        feed_fits(feed, channels),
        0 <= channel < channels,
    ensures
        reading(fed(silence(channels), feed)).0[channel] == highest_peak(feed, channel),
        reading(fed(silence(channels), feed)).1 == silence(channels),
{
    lemma_fed_is_running_peak(silence(channels), feed, channel);
}

/// A level never falls between two readings.
pub proof fn lemma_levels_never_fall(levels: Seq<Level>, channel: int, peak: Level, other: int)
    requires
        0 <= channel < levels.len(),
        0 <= other < levels.len(),
    ensures
        raised(levels, channel, peak).len() == levels.len(),
        raised(levels, channel, peak)[other] >= levels[other],
        other != channel ==> raised(levels, channel, peak)[other] == levels[other],
{
}

/// A second reading with no report in between hands out silence.
pub proof fn lemma_second_reading_is_silent(levels: Seq<Level>)
    ensures
        reading(reading(levels).1).0 == silence(levels.len()),
        forall|i: int|
            0 <= i < levels.len() ==> (#[trigger] reading(reading(levels).1).0[i]) == 0,
        reading(reading(levels).1).1 == reading(levels).1,
{
}

} // verus!
