//! Hash and regime bookkeeping of the metrics tracker: a bounded history
//! of session hashes with divergence detection, and the log of regime
//! transitions.
use std::collections::VecDeque;
use vstd::prelude::*;

verus! {

/// Number of (frame, hash) entries kept.
pub const HASH_HISTORY_LEN: usize = 20;

/// Abstract contents of a metrics log.
pub ghost struct MetricsLogView {
    /// Most recent (frame, hash) entries, oldest first.
    pub hashes: Seq<(u32, u64)>,
    /// Every recorded (frame, new regime) transition, oldest first.
    pub transitions: Seq<(u32, u8)>,
    /// Hash of the latest push.
    pub hash: u64,
    /// Current regime.
    pub regime: u8,
}

/// Appends an entry, dropping the oldest once `HASH_HISTORY_LEN` are kept.
pub open spec fn bounded_push(h: Seq<(u32, u64)>, entry: (u32, u64)) -> Seq<(u32, u64)> {
    if h.len() >= HASH_HISTORY_LEN {
        h.subrange(1, h.len() as int).push(entry)
    } else {
        h.push(entry)
    }
}

/// Hash and regime history of the metrics tracker.
pub struct MetricsLog {
    hash_history: VecDeque<(u32, u64)>,
    regime_transitions: VecDeque<(u32, u8)>,
    current_hash: u64,
    current_regime: u8,
}

impl View for MetricsLog {
    type V = MetricsLogView;

    closed spec fn view(&self) -> MetricsLogView {
        MetricsLogView {
            hashes: self.hash_history@,
            transitions: self.regime_transitions@,
            hash: self.current_hash,
            regime: self.current_regime,
        }
    }
}

impl MetricsLog {
    /// Empty log: hash 0, regime 1.
    pub fn new() -> (log: Self)
        ensures
            log@.hashes == Seq::<(u32, u64)>::empty(),
            log@.transitions == Seq::<(u32, u8)>::empty(),
            log@.hash == 0,
            log@.regime == 1,
    {
        MetricsLog {
            hash_history: VecDeque::with_capacity(20),
            regime_transitions: VecDeque::with_capacity(10),
            current_hash: 0,
            current_regime: 1,
        }
    }

    /// Record the H_session hash of a frame. Returns whether it differs
    /// from the previously recorded hash (a divergence).
    pub fn push_hash(&mut self, frame_count: u32, hash: u64) -> (diverged: bool)
        ensures
            diverged == (old(self)@.hashes.len() > 0 && old(self)@.hashes.last().1 != hash),
            final(self)@.hashes == bounded_push(old(self)@.hashes, (frame_count, hash)),
            final(self)@.hash == hash,
            final(self)@.transitions == old(self)@.transitions,
            final(self)@.regime == old(self)@.regime,
    {
        let n = self.hash_history.len();
        let diverged = if n > 0 {
            let last = self.hash_history[n - 1];
            hash != last.1
        } else {
            false
        };
        if self.hash_history.len() >= 20 {
            self.hash_history.pop_front();
        }
        self.hash_history.push_back((frame_count, hash));
        self.current_hash = hash;
        diverged
    }

    /// Record a regime transition; a push of the current regime is ignored.
    /// Returns whether a transition was recorded.
    pub fn push_regime_transition(&mut self, frame_count: u32, new_regime: u8) -> (changed: bool)
        ensures
            changed == (new_regime != old(self)@.regime),
            changed ==> final(self)@.transitions == old(self)@.transitions.push(
                (frame_count, new_regime),
            ),
            !changed ==> final(self)@.transitions == old(self)@.transitions,
            final(self)@.regime == new_regime,
            final(self)@.hashes == old(self)@.hashes,
            final(self)@.hash == old(self)@.hash,
    {
        if new_regime != self.current_regime {
            self.regime_transitions.push_back((frame_count, new_regime));
            self.current_regime = new_regime;
            true
        } else {
            false
        }
    }

    /// Number of recorded regime transitions.
    pub fn regime_transition_count(&self) -> (n: usize)
        ensures
            n == self@.transitions.len(),
    {
        self.regime_transitions.len()
    }

    /// Latest recorded hash.
    pub fn current_hash(&self) -> (h: u64)
        ensures
            h == self@.hash,
    {
        self.current_hash
    }

    /// Current regime.
    pub fn current_regime(&self) -> (r: u8)
        ensures
            r == self@.regime,
    {
        self.current_regime
    }

    /// Clear the hash history and the transition log; the current hash and
    /// regime are kept.
    pub fn reset(&mut self)
        ensures
            final(self)@.hashes == Seq::<(u32, u64)>::empty(),
            final(self)@.transitions == Seq::<(u32, u8)>::empty(),
            final(self)@.hash == old(self)@.hash,
            final(self)@.regime == old(self)@.regime,
    {
        self.hash_history.clear();
        self.regime_transitions.clear();
    }
}

/// Rank of the 99th-percentile sample among `n` sorted samples: the index
/// `n * 99 / 100`, always a valid index.
pub fn p99_rank_index(n: usize) -> (r: usize)
    requires
        n > 0,
        n <= usize::MAX / 99,
    ensures
        r == n * 99 / 100,
        r < n,
{
    (n * 99) / 100
}

/// The hash history never holds more than `HASH_HISTORY_LEN` entries and
/// always ends with the latest push.
pub proof fn lemma_hash_history_bounded(h: Seq<(u32, u64)>, entry: (u32, u64))
    requires
        h.len() <= HASH_HISTORY_LEN,
    ensures
        bounded_push(h, entry).len() <= HASH_HISTORY_LEN,
        bounded_push(h, entry).last() == entry,
{
}

} // verus!
