//! Regime FSM: occupancy-driven selection of the physics regime.
//!
//! Regimes 1-4 run the full pipeline; Regime 5 sheds phases under load.
//! Transitions use asymmetric hysteresis: going up to Regime 5 takes
//! `UP_FRAMES_REQUIRED` consecutive frames at or above `UP_THRESHOLD`,
//! coming back down to Regime 1 takes `DOWN_FRAMES_REQUIRED` frames at or
//! below `DOWN_THRESHOLD`. Any frame below `UP_THRESHOLD` restarts the up
//! count; a frame at or above `UP_THRESHOLD` restarts the down count, and a
//! frame strictly between the thresholds leaves the down count as it is.
use std::collections::VecDeque;
use vstd::prelude::*;
use crate::text::{decimal, decimal_digit, push_decimal};

verus! {

/// Occupancy at or above which a frame counts toward the up transition.
pub const UP_THRESHOLD: u32 = 80;

/// Occupancy at or below which a frame counts toward the down transition.
pub const DOWN_THRESHOLD: u32 = 60;

/// Consecutive high frames needed before switching to Regime 5.
pub const UP_FRAMES_REQUIRED: u32 = 4;

/// Consecutive low frames needed before returning from Regime 5.
pub const DOWN_FRAMES_REQUIRED: u32 = 2;

/// Number of occupancy samples kept for diagnostics.
pub const HISTORY_SIZE: usize = 10;

/// Regime state (1-5, occupancy-driven).
#[derive(Debug, Clone, Copy, PartialEq, Eq, Structural, PartialOrd, Ord)]
pub enum Regime {
    One,
    Two,
    Three,
    Four,
    Five,
}

impl Regime {
    /// The regime's number, 1 to 5.
    pub open spec fn number(self) -> u8 {
        match self {
            Regime::One => 1,
            Regime::Two => 2,
            Regime::Three => 3,
            Regime::Four => 4,
            Regime::Five => 5,
        }
    }

    /// The regime whose number is `val` clamped into 1..=5.
    pub open spec fn clamped(val: u8) -> Regime {
        if val <= 1 {
            Regime::One
        } else if val == 2 {
            Regime::Two
        } else if val == 3 {
            Regime::Three
        } else if val == 4 {
            Regime::Four
        } else {
            Regime::Five
        }
    }

    /// The human-readable label of the regime.
    pub open spec fn label(self) -> Seq<char> {
        match self {
            Regime::One => "Regime 1 (Menu/Cutscene)"@,
            Regime::Two => "Regime 2 (Light)"@,
            Regime::Three => "Regime 3 (Medium)"@,
            Regime::Four => "Regime 4 (Heavy)"@,
            Regime::Five => "Regime 5 (Thermal)"@,
        }
    }

    /// Convert u8 to Regime (clamped to 1-5).
    pub fn from_u8(val: u8) -> (r: Regime)
        ensures
            r == Regime::clamped(val),
            r.number() == (if val < 1 { 1 } else if val > 5 { 5 } else { val }),
    {
        match val {
            1 => Regime::One,
            2 => Regime::Two,
            3 => Regime::Three,
            4 => Regime::Four,
            5 => Regime::Five,
            _ => {
                if val < 1 {
                    Regime::One
                } else {
                    Regime::Five
                }
            },
        }
    }

    /// Convert to u8.
    pub fn to_u8(&self) -> (n: u8)
        ensures
            n == self.number(),
    {
        match self {
            Regime::One => 1,
            Regime::Two => 2,
            Regime::Three => 3,
            Regime::Four => 4,
            Regime::Five => 5,
        }
    }

    /// Human-readable name.
    pub fn name(&self) -> (s: &'static str)
        ensures
            s@ == self.label(),
    {
        match self {
            Regime::One => "Regime 1 (Menu/Cutscene)",
            Regime::Two => "Regime 2 (Light)",
            Regime::Three => "Regime 3 (Medium)",
            Regime::Four => "Regime 4 (Heavy)",
            Regime::Five => "Regime 5 (Thermal)",
        }
    }
}

/// Converting a number to a regime and back clamps the number into 1..=5.
pub proof fn lemma_regime_number_roundtrip(r: Regime, val: u8)
    ensures
        Regime::clamped(r.number()) == r,
        1 <= val <= 5 ==> Regime::clamped(val).number() == val,
{
}

/// Occupancy sample for history tracking.
#[derive(Debug, Clone, Copy)]
struct OccupancySample {
    value: u32,
    #[allow(dead_code)]
    _frame_count: u64,
}

/// Abstract state of the regime state machine.
pub ghost struct FsmView {
    pub current: Regime,
    pub previous: Regime,
    pub change_frame: u64,
    /// Occupancies of the most recent frames, oldest first.
    pub history: Seq<u32>,
    pub high_frames: u32,
    pub low_frames: u32,
}

/// Appends an occupancy to the history, dropping the oldest sample once
/// the history would exceed `HISTORY_SIZE`.
pub open spec fn record_occupancy(history: Seq<u32>, occupancy: u32) -> Seq<u32> {
    let h = history.push(occupancy);
    if h.len() > HISTORY_SIZE {
        h.subrange(1, h.len() as int)
    } else {
        h
    }
}

/// The regime the hysteresis counters call for.
pub open spec fn target_regime(current: Regime, high: u32, low: u32) -> Regime {
    if current == Regime::Five {
        if low >= DOWN_FRAMES_REQUIRED {
            Regime::One
        } else {
            Regime::Five
        }
    } else {
        if high >= UP_FRAMES_REQUIRED {
            Regime::Five
        } else {
            current
        }
    }
}

impl FsmView {
    /// The state a fresh machine starts in.
    pub open spec fn initial() -> FsmView {
        FsmView {
            current: Regime::One,
            previous: Regime::One,
            change_frame: 0,
            history: Seq::empty(),
            high_frames: 0,
            low_frames: 0,
        }
    }

    /// What holds of every state the machine can reach.
    pub open spec fn inv(self) -> bool {
        &&& self.history.len() <= HISTORY_SIZE
        &&& (self.current == Regime::One || self.current == Regime::Five)
        &&& (self.previous == Regime::One || self.previous == Regime::Five)
        &&& (self.current != Regime::Five ==> self.high_frames < UP_FRAMES_REQUIRED)
        &&& (self.current == Regime::Five ==> self.low_frames < DOWN_FRAMES_REQUIRED)
        &&& (self.high_frames == 0 || self.low_frames == 0)
    }

    /// Observing `occupancy` does not overflow the counter it increments:
    /// a high frame increments the up count, a low frame the down count.
    pub open spec fn can_step(self, occupancy: u32) -> bool {
        &&& (occupancy >= UP_THRESHOLD ==> self.high_frames < u32::MAX)
        &&& (occupancy <= DOWN_THRESHOLD ==> self.low_frames < u32::MAX)
    }

    /// High-occupancy counter after observing `occupancy`.
    pub open spec fn next_high(self, occupancy: u32) -> u32 {
        if occupancy >= UP_THRESHOLD {
            (self.high_frames + 1) as u32
        } else {
            0
        }
    }

    /// Low-occupancy counter after observing `occupancy`.
    pub open spec fn next_low(self, occupancy: u32) -> u32 {
        if occupancy >= UP_THRESHOLD {
            0
        } else if occupancy <= DOWN_THRESHOLD {
            (self.low_frames + 1) as u32
        } else {
            self.low_frames
        }
    }

    /// One update of the machine with the occupancy of frame `frame`.
    pub open spec fn step(self, occupancy: u32, frame: u64) -> FsmView {
        let high = self.next_high(occupancy);
        let low = self.next_low(occupancy);
        let history = record_occupancy(self.history, occupancy);
        let next = target_regime(self.current, high, low);
        if next != self.current {
            FsmView {
                current: next,
                previous: self.current,
                change_frame: frame,
                history,
                high_frames: 0,
                low_frames: 0,
            }
        } else {
            FsmView {
                current: self.current,
                previous: self.previous,
                change_frame: self.change_frame,
                history,
                high_frames: high,
                low_frames: low,
            }
        }
    }

    /// A regime change is acceptable at `frame`.
    pub open spec fn transition_valid_at(self, frame: u64) -> bool {
        self.previous == self.current || frame >= self.change_frame
    }
}

/// Every update keeps the machine inside its reachable states: only
/// Regimes 1 and 5 occur, a history of at most `HISTORY_SIZE` samples, and
/// counters below their thresholds with at most one of them non-zero.
pub proof fn lemma_step_preserves_invariant(v: FsmView, occupancy: u32, frame: u64)
    requires
        v.inv(),
        v.can_step(occupancy),
    ensures
        v.step(occupancy, frame).inv(),
{
}

/// Up hysteresis: outside Regime 5 an update switches to Regime 5 exactly
/// when this frame is high and brings the up count (high frames in a row
/// since the count last restarted) to `UP_FRAMES_REQUIRED`; otherwise the
/// regime stays as it was.
pub proof fn lemma_up_hysteresis(v: FsmView, occupancy: u32, frame: u64)
    requires
        v.inv(),
        v.can_step(occupancy),
        v.current != Regime::Five,
    ensures
        v.step(occupancy, frame).current == Regime::Five <==> (occupancy >= UP_THRESHOLD
            && v.high_frames + 1 >= UP_FRAMES_REQUIRED),
        v.step(occupancy, frame).current != Regime::Five ==> v.step(occupancy, frame).current
            == v.current,
{
}

/// Down hysteresis: in Regime 5 an update returns to Regime 1 exactly when
/// this frame is low and completes `DOWN_FRAMES_REQUIRED` consecutive low
/// frames; otherwise the machine stays in Regime 5.
pub proof fn lemma_down_hysteresis(v: FsmView, occupancy: u32, frame: u64)
    requires
        v.inv(),
        v.can_step(occupancy),
        v.current == Regime::Five,
    ensures
        v.step(occupancy, frame).current == Regime::One <==> (occupancy <= DOWN_THRESHOLD
            && v.low_frames + 1 >= DOWN_FRAMES_REQUIRED),
        v.step(occupancy, frame).current != Regime::One ==> v.step(occupancy, frame).current
            == Regime::Five,
{
}

/// A regime change restarts both hysteresis counts: right after switching
/// up or down, no high or low frame is counted toward the next switch.
pub proof fn lemma_regime_change_restarts_counts(v: FsmView, occupancy: u32, frame: u64)
    requires
        v.step(occupancy, frame).current != v.current,
    ensures
        v.step(occupancy, frame).high_frames == 0,
        v.step(occupancy, frame).low_frames == 0,
{
}

/// An occupancy strictly between the two thresholds never changes the
/// regime: it restarts the up count and leaves the down count as it was.
pub proof fn lemma_middle_zone_stable(v: FsmView, occupancy: u32, frame: u64)
    requires
        v.inv(),
        DOWN_THRESHOLD < occupancy < UP_THRESHOLD,
    ensures
        v.step(occupancy, frame).current == v.current,
        v.step(occupancy, frame).previous == v.previous,
        v.step(occupancy, frame).change_frame == v.change_frame,
        v.step(occupancy, frame).high_frames == 0,
        v.step(occupancy, frame).low_frames == v.low_frames,
{
}

/// What one update does to the regime: it stays Regime 1 or Regime 5; a
/// frame below `UP_THRESHOLD` never switches up and a frame above
/// `DOWN_THRESHOLD` never switches down; a change records the old regime
/// and the frame, and without a change both are kept.
pub proof fn lemma_update_regime_rules(v: FsmView, occupancy: u32, frame: u64)
    requires
        v.inv(),
        v.can_step(occupancy),
    ensures
        ({
            let w = v.step(occupancy, frame);
            &&& (w.current == Regime::One || w.current == Regime::Five)
            &&& (occupancy < UP_THRESHOLD && v.current != Regime::Five ==> w.current == v.current)
            &&& (occupancy > DOWN_THRESHOLD && v.current == Regime::Five ==> w.current
                == Regime::Five)
            &&& (w.current != v.current ==> w.previous == v.current && w.change_frame == frame)
            &&& (w.current == v.current ==> w.previous == v.previous && w.change_frame
                == v.change_frame)
        }),
{
}

/// A high frame clears the low counter and any frame below the up
/// threshold clears the high counter, so a single such frame restarts the
/// count toward a switch.
pub proof fn lemma_opposite_frame_resets(v: FsmView, occupancy: u32, frame: u64)
    requires
        v.inv(),
        v.can_step(occupancy),
    ensures
        occupancy >= UP_THRESHOLD ==> v.step(occupancy, frame).low_frames == 0,
        occupancy < UP_THRESHOLD ==> v.step(occupancy, frame).high_frames == 0,
{
}

/// Starting outside Regime 5 with no high frames counted, three high
/// frames leave the regime alone and the fourth switches to Regime 5,
/// recording the old regime and the frame of the switch.
pub proof fn lemma_four_high_frames_switch_up(v: FsmView, occ: Seq<u32>, frames: Seq<u64>)
    requires
        v.inv(),
        v.current != Regime::Five,
        v.high_frames == 0,
        occ.len() == 4,
        frames.len() == 4,
        forall|i: int| 0 <= i < 4 ==> occ[i] >= UP_THRESHOLD,
    ensures
        ({
            let v1 = v.step(occ[0], frames[0]);
            let v2 = v1.step(occ[1], frames[1]);
            let v3 = v2.step(occ[2], frames[2]);
            let v4 = v3.step(occ[3], frames[3]);
            &&& v1.current == v.current
            &&& v2.current == v.current
            &&& v3.current == v.current
            &&& v4.current == Regime::Five
            &&& v4.previous == v.current
            &&& v4.change_frame == frames[3]
        }),
{
    assert(occ[0] >= UP_THRESHOLD && occ[1] >= UP_THRESHOLD);
    assert(occ[2] >= UP_THRESHOLD && occ[3] >= UP_THRESHOLD);
}

/// Starting in Regime 5 with no low frames counted, one low frame keeps
/// Regime 5 and the second returns to Regime 1.
pub proof fn lemma_two_low_frames_switch_down(v: FsmView, occ: Seq<u32>, frames: Seq<u64>)
    requires
        v.inv(),
        v.current == Regime::Five,
        v.low_frames == 0,
        occ.len() == 2,
        frames.len() == 2,
        forall|i: int| 0 <= i < 2 ==> occ[i] <= DOWN_THRESHOLD,
    ensures
        ({
            let v1 = v.step(occ[0], frames[0]);
            let v2 = v1.step(occ[1], frames[1]);
            &&& v1.current == Regime::Five
            &&& v2.current == Regime::One
            &&& v2.previous == Regime::Five
            &&& v2.change_frame == frames[1]
        }),
{
    assert(occ[0] <= DOWN_THRESHOLD && occ[1] <= DOWN_THRESHOLD);
}

/// The only transitions are from Regimes 1-4 up to Regime 5 and from
/// Regime 5 down to Regime 1; each records the old regime and the frame,
/// and is valid at that frame and every later one.
pub proof fn lemma_transition_bookkeeping(v: FsmView, occupancy: u32, frame: u64, later: u64)
    requires
        v.inv(),
        v.can_step(occupancy),
        v.step(occupancy, frame).current != v.current,
        later >= frame,
    ensures
        (v.current != Regime::Five && v.step(occupancy, frame).current == Regime::Five) || (
        v.current == Regime::Five && v.step(occupancy, frame).current == Regime::One),
        v.step(occupancy, frame).previous == v.current,
        v.step(occupancy, frame).change_frame == frame,
        v.step(occupancy, frame).transition_valid_at(later),
{
}

/// The history ends with the newest occupancy, keeps at most
/// `HISTORY_SIZE` samples, and only drops its oldest sample when full.
pub proof fn lemma_history_keeps_recent(v: FsmView, occupancy: u32, frame: u64)
    requires
        v.inv(),
    ensures
        v.step(occupancy, frame).history.len() <= HISTORY_SIZE,
        v.step(occupancy, frame).history.last() == occupancy,
        v.history.len() < HISTORY_SIZE ==> v.step(occupancy, frame).history == v.history.push(
            occupancy,
        ),
        v.history.len() == HISTORY_SIZE ==> v.step(occupancy, frame).history == v.history.subrange(
            1,
            HISTORY_SIZE as int,
        ).push(occupancy),
{
    let h = v.history.push(occupancy);
    if v.history.len() == HISTORY_SIZE {
        assert(h.subrange(1, h.len() as int) =~= v.history.subrange(1, HISTORY_SIZE as int).push(
            occupancy,
        ));
    }
}

/// Sum of a sequence of occupancies.
pub open spec fn occupancy_sum(s: Seq<u32>) -> nat
    decreases s.len(),
{
    if s.len() == 0 {
        0
    } else {
        occupancy_sum(s.drop_last()) + s.last() as nat
    }
}

/// The last `k` samples of the history (all of it when shorter).
pub open spec fn recent_samples(history: Seq<u32>, k: nat) -> Seq<u32> {
    let count = if k < history.len() { k } else { history.len() };
    history.subrange(history.len() - count, history.len() as int)
}

/// Mean of the last `k` samples in tenths, rounded to nearest with ties to
/// even; 0 when there are no samples.
pub open spec fn average_tenths(history: Seq<u32>, k: nat) -> nat {
    let recent = recent_samples(history, k);
    let count = recent.len();
    if count == 0 {
        0
    } else {
        let num = occupancy_sum(recent) * 10;
        let q = num / count;
        let r = num % count;
        if 2 * r > count || (2 * r == count && q % 2 == 1) {
            q + 1
        } else {
            q
        }
    }
}

/// A number of tenths written with one decimal place.
pub open spec fn tenths_text(t: nat) -> Seq<char> {
    decimal(t / 10) + "."@ + seq![decimal_digit(t % 10)]
}

/// The diagnostic line of a machine state.
pub open spec fn diagnostic_text(v: FsmView) -> Seq<char> {
    "Regime: "@ + v.current.label() + " | High: "@ + decimal(v.high_frames as nat) + "/"@
        + decimal(UP_FRAMES_REQUIRED as nat) + " | Low: "@ + decimal(v.low_frames as nat) + "/"@
        + decimal(DOWN_FRAMES_REQUIRED as nat) + " | Avg Occupancy: "@ + tenths_text(
        average_tenths(v.history, 5),
    )
}

proof fn lemma_occupancy_sum_bound(s: Seq<u32>)
    ensures
        occupancy_sum(s) <= s.len() * (u32::MAX as nat),
    decreases s.len(),
{
    if s.len() > 0 {
        lemma_occupancy_sum_bound(s.drop_last());
    }
}

/// The machine after a sequence of updates, `occs[i]` observed at `frames[i]`.
pub open spec fn run(v: FsmView, occs: Seq<u32>, frames: Seq<u64>) -> FsmView
    decreases occs.len(),
{
    if occs.len() == 0 || frames.len() != occs.len() {
        v
    } else {
        run(v, occs.drop_last(), frames.drop_last()).step(occs.last(), frames.last())
    }
}

/// Number of occupancies at or above `UP_THRESHOLD` at the end of `occs`,
/// in a row.
pub open spec fn trailing_high(occs: Seq<u32>) -> nat
    decreases occs.len(),
{
    if occs.len() == 0 || occs.last() < UP_THRESHOLD {
        0
    } else {
        trailing_high(occs.drop_last()) + 1
    }
}

proof fn lemma_trailing_high_suffix(occs: Seq<u32>, k: nat)
    requires
        trailing_high(occs) >= k,
    ensures
        k <= occs.len(),
        forall|i: int| occs.len() - k <= i < occs.len() ==> occs[i] >= UP_THRESHOLD,
    decreases occs.len(),
{
    if k > 0 {
        lemma_trailing_high_suffix(occs.drop_last(), (k - 1) as nat);
        assert forall|i: int| occs.len() - k <= i < occs.len() implies occs[i] >= UP_THRESHOLD by {
            if i < occs.len() - 1 {
                assert(occs.drop_last()[i] == occs[i]);
            }
        }
    }
}

/// From a fresh machine, the up count never exceeds the number of high
/// frames in a row at the end of the observed occupancies.
pub proof fn lemma_up_count_bounded_by_run(occs: Seq<u32>, frames: Seq<u64>)
    requires
        occs.len() == frames.len(),
        occs.len() < u32::MAX,
    ensures
        run(FsmView::initial(), occs, frames).high_frames <= trailing_high(occs),
        trailing_high(occs) <= occs.len(),
    decreases occs.len(),
{
    if occs.len() > 0 {
        lemma_up_count_bounded_by_run(occs.drop_last(), frames.drop_last());
    }
}

/// Switching up needs `UP_FRAMES_REQUIRED` consecutive high frames: if a
/// fresh machine switches to Regime 5 on the last of a sequence of
/// updates, the last four occupancies were all at or above `UP_THRESHOLD`.
pub proof fn lemma_up_switch_needs_consecutive_high_frames(occs: Seq<u32>, frames: Seq<u64>)
    requires
        occs.len() == frames.len(),
        1 <= occs.len() < u32::MAX,
        run(FsmView::initial(), occs.drop_last(), frames.drop_last()).current != Regime::Five,
        run(FsmView::initial(), occs, frames).current == Regime::Five,
    ensures
        occs.len() >= UP_FRAMES_REQUIRED,
        forall|i: int|
            occs.len() - UP_FRAMES_REQUIRED <= i < occs.len() ==> occs[i] >= UP_THRESHOLD,
{
    lemma_up_count_bounded_by_run(occs.drop_last(), frames.drop_last());
    assert(occs.drop_last() =~= occs.subrange(0, occs.len() - 1));
    assert(trailing_high(occs) >= UP_FRAMES_REQUIRED);
    lemma_trailing_high_suffix(occs, UP_FRAMES_REQUIRED as nat);
}

/// After any sequence of updates from a fresh machine, the history holds
/// the last `HISTORY_SIZE` occupancies (all of them when fewer), oldest
/// first.
pub proof fn lemma_history_after_updates(occs: Seq<u32>, frames: Seq<u64>)
    requires
        occs.len() == frames.len(),
    ensures
        run(FsmView::initial(), occs, frames).history == occs.subrange(
            if occs.len() > HISTORY_SIZE { occs.len() - HISTORY_SIZE } else { 0 },
            occs.len() as int,
        ),
    decreases occs.len(),
{
    if occs.len() == 0 {
        assert(occs.subrange(0, 0) =~= Seq::<u32>::empty());
    } else {
        let prev = occs.drop_last();
        lemma_history_after_updates(prev, frames.drop_last());
        let n = occs.len() as int;
        let h = run(FsmView::initial(), prev, frames.drop_last()).history;
        if n - 1 > HISTORY_SIZE {
            assert(h.push(occs.last()).subrange(1, h.len() as int + 1) =~= occs.subrange(n - 10, n));
        } else if n - 1 == HISTORY_SIZE {
            assert(h.push(occs.last()).subrange(1, h.len() as int + 1) =~= occs.subrange(n - 10, n));
        } else {
            assert(h.push(occs.last()) =~= occs.subrange(0, n));
        }
    }
}

/// The average in the diagnostic line is the mean of the last `k` samples
/// (all of them when fewer) rounded to the nearest tenth: it is off from
/// the exact mean by at most half a tenth.
pub proof fn lemma_average_tenths_is_nearest(history: Seq<u32>, k: nat)
    requires
        k > 0,
        history.len() > 0,
    ensures
        ({
            let count: int = if k < history.len() { k as int } else { history.len() as int };
            let recent = history.subrange(history.len() - count, history.len() as int);
            let t = average_tenths(history, k) as int;
            let num = occupancy_sum(recent) * 10;
            &&& recent_samples(history, k) == recent
            &&& 2 * (t * count - num) <= count
            &&& 2 * (num - t * count) <= count
        }),
{
    let count: int = if k < history.len() { k as int } else { history.len() as int };
    let recent = history.subrange(history.len() - count, history.len() as int);
    let num: int = (occupancy_sum(recent) * 10) as int;
    vstd::arithmetic::div_mod::lemma_fundamental_div_mod(num, count);
    let q: int = num / count;
    let r: int = num % count;
    assert(q * count == count * q) by (nonlinear_arith);
    assert((q + 1) * count == q * count + count) by (nonlinear_arith);
}

/// Regime FSM (Finite State Machine).
pub struct RegimeFsm {
    current_regime: Regime,
    previous_regime: Regime,
    regime_change_frame: u64,
    occupancy_history: VecDeque<OccupancySample>,
    history_size: usize,
    high_occupancy_frames: u32,
    low_occupancy_frames: u32,
    up_threshold: u32,
    down_threshold: u32,
    up_frames_required: u32,
    down_frames_required: u32,
}

impl View for RegimeFsm {
    type V = FsmView;

    closed spec fn view(&self) -> FsmView {
        FsmView {
            current: self.current_regime,
            previous: self.previous_regime,
            change_frame: self.regime_change_frame,
            history: self.occupancy_history@.map_values(|s: OccupancySample| s.value),
            high_frames: self.high_occupancy_frames,
            low_frames: self.low_occupancy_frames,
        }
    }
}

impl RegimeFsm {
    /// The machine's parameters are the fixed ones and its state is reachable.
    #[verifier::type_invariant]
    spec fn well_formed(self) -> bool {
        &&& self.history_size == HISTORY_SIZE
        &&& self.up_threshold == UP_THRESHOLD
        &&& self.down_threshold == DOWN_THRESHOLD
        &&& self.up_frames_required == UP_FRAMES_REQUIRED
        &&& self.down_frames_required == DOWN_FRAMES_REQUIRED
        &&& self@.inv()
    }

    /// Create new FSM (starts in Regime 1).
    pub fn new() -> (fsm: Self)
        ensures
            fsm@ == FsmView::initial(),
            fsm@.inv(),
    {
        let fsm = RegimeFsm {
            current_regime: Regime::One,
            previous_regime: Regime::One,
            regime_change_frame: 0,
            occupancy_history: VecDeque::with_capacity(10),
            history_size: 10,
            high_occupancy_frames: 0,
            low_occupancy_frames: 0,
            up_threshold: 80,
            down_threshold: 60,
            up_frames_required: 4,
            down_frames_required: 2,
        };
        assert(fsm@.history =~= Seq::<u32>::empty());
        fsm
    }

    /// Get current regime. Every machine is in a reachable state, so the
    /// laws over `FsmView::inv` apply to it.
    pub fn current(&self) -> (r: Regime)
        ensures
            r == self@.current,
            self@.inv(),
    {
        proof {
            use_type_invariant(self);
        }
        self.current_regime
    }

    /// Get previous regime (for transition auditing).
    pub fn previous(&self) -> (r: Regime)
        ensures
            r == self@.previous,
    {
        self.previous_regime
    }

    /// Frame count at which current regime was established.
    pub fn regime_change_frame(&self) -> (f: u64)
        ensures
            f == self@.change_frame,
    {
        self.regime_change_frame
    }

    /// Consecutive high frames counted toward the up switch.
    pub fn high_frames(&self) -> (n: u32)
        ensures
            n == self@.high_frames,
    {
        self.high_occupancy_frames
    }

    /// Low frames counted toward the down switch.
    pub fn low_frames(&self) -> (n: u32)
        ensures
            n == self@.low_frames,
    {
        self.low_occupancy_frames
    }

    /// Whether `update` may be called with `occupancy`: the counter that
    /// this occupancy increments is not at `u32::MAX`.
    pub fn can_update(&self, occupancy: u32) -> (b: bool)
        ensures
            b == self@.can_step(occupancy),
    {
        proof {
            use_type_invariant(self);
        }
        (occupancy < self.up_threshold || self.high_occupancy_frames < u32::MAX) && (occupancy
            > self.down_threshold || self.low_occupancy_frames < u32::MAX)
    }

    /// Update FSM with occupancy from this frame.
    pub fn update(&mut self, occupancy: u32, frame_count: u64)
        requires
            old(self)@.can_step(occupancy),
        ensures
            final(self)@ == old(self)@.step(occupancy, frame_count),
            final(self)@.inv(),
    {
        proof {
            use_type_invariant(&*self);
            lemma_step_preserves_invariant(self@, occupancy, frame_count);
        }
        let ghost old_view = self@;
        let mut history: VecDeque<OccupancySample> = VecDeque::new();
        std::mem::swap(&mut history, &mut self.occupancy_history);
        let ghost old_samples = history@;
        history.push_back(OccupancySample { value: occupancy, _frame_count: frame_count });
        if history.len() > self.history_size {
            history.pop_front();
        }
        proof {
            let pushed = old_samples.push(OccupancySample { value: occupancy, _frame_count: frame_count });
            assert(pushed.map_values(|s: OccupancySample| s.value) =~= old_view.history.push(occupancy));
            if pushed.len() > HISTORY_SIZE {
                assert(history@ == pushed.subrange(1, pushed.len() as int));
                assert(history@.map_values(|s: OccupancySample| s.value) =~=
                    old_view.history.push(occupancy).subrange(1, pushed.len() as int));
            } else {
                assert(history@.map_values(|s: OccupancySample| s.value) =~=
                    old_view.history.push(occupancy));
            }
        }

        let mut high = self.high_occupancy_frames;
        let mut low = self.low_occupancy_frames;
        if occupancy >= self.up_threshold {
            high = high + 1;
            low = 0;
        } else {
            high = 0;
            if occupancy <= self.down_threshold {
                low = low + 1;
            }
        }

        let new_regime = Self::determine_regime(self.current_regime, high, low);

        let (current, previous, change_frame, high, low) = if new_regime != self.current_regime {
            (new_regime, self.current_regime, frame_count, 0u32, 0u32)
        } else {
            (self.current_regime, self.previous_regime, self.regime_change_frame, high, low)
        };
        *self = RegimeFsm {
            current_regime: current,
            previous_regime: previous,
            regime_change_frame: change_frame,
            occupancy_history: history,
            history_size: 10,
            high_occupancy_frames: high,
            low_occupancy_frames: low,
            up_threshold: 80,
            down_threshold: 60,
            up_frames_required: 4,
            down_frames_required: 2,
        };
    }

    /// Determine target regime based on hysteresis counters and thresholds.
    fn determine_regime(current: Regime, high: u32, low: u32) -> (r: Regime)
        ensures
            r == target_regime(current, high, low),
    {
        match current {
            Regime::One | Regime::Two | Regime::Three | Regime::Four => {
                if high >= UP_FRAMES_REQUIRED {
                    Regime::Five
                } else {
                    current
                }
            },
            Regime::Five => {
                if low >= DOWN_FRAMES_REQUIRED {
                    Regime::One
                } else {
                    Regime::Five
                }
            },
        }
    }

    /// Check if regime transition is valid (must be at frame boundary).
    pub fn is_transition_valid_at_frame(&self, current_frame: u64) -> (b: bool)
        ensures
            b == self@.transition_valid_at(current_frame),
    {
        self.previous_regime == self.current_regime || current_frame >= self.regime_change_frame
    }

    /// Get occupancy samples (for diagnostics), oldest first.
    pub fn occupancy_history(&self) -> (h: Vec<u32>)
        ensures
            h@ == self@.history,
    {
        let mut out: Vec<u32> = Vec::new();
        let n = self.occupancy_history.len();
        let mut i: usize = 0;
        while i < n
            invariant
                n == self.occupancy_history@.len(),
                i <= n,
                out@ == self@.history.subrange(0, i as int),
            decreases n - i,
        {
            out.push(self.occupancy_history[i].value);
            i = i + 1;
            assert(out@ =~= self@.history.subrange(0, i as int));
        }
        assert(out@ =~= self@.history);
        out
    }
    /// Sum of the last `count` samples.
    fn recent_sum(&self, count: usize) -> (total: u64)
        requires
            count <= self.occupancy_history@.len(),
            count <= 5,
        ensures
            total == occupancy_sum(
                self@.history.subrange(self@.history.len() - count, self@.history.len() as int),
            ),
    {
        let n = self.occupancy_history.len();
        let ghost h = self@.history;
        let mut total: u64 = 0;
        let mut i: usize = n - count;
        while i < n
            invariant
                n == h.len(),
                h == self@.history,
                n == self.occupancy_history@.len(),
                count <= n,
                n - count <= i <= n,
                count <= 5,
                total == occupancy_sum(h.subrange(n - count, i as int)),
            decreases n - i,
        {
            proof {
                lemma_occupancy_sum_bound(h.subrange(n - count, i as int));
                assert(h.subrange(n - count, i as int + 1).drop_last() =~= h.subrange(
                    n - count,
                    i as int,
                ));
            }
            total = total + self.occupancy_history[i].value as u64;
            i = i + 1;
        }
        total
    }

    /// Get FSM state for diagnostics.
    pub fn diagnostic_state(&self) -> (s: String)
        ensures
            s@ == diagnostic_text(self@),
    {
        proof {
            use_type_invariant(self);
        }
        let n = self.occupancy_history.len();
        let count: usize = if n < 5 { n } else { 5 };
        let total = self.recent_sum(count);
        let tenths: u64 = if count == 0 {
            0
        } else {
            proof {
                lemma_occupancy_sum_bound(
                    self@.history.subrange(self@.history.len() - count, self@.history.len() as int),
                );
            }
            let num = total * 10;
            let q = num / (count as u64);
            let r = num % (count as u64);
            if 2 * r > count as u64 || (2 * r == count as u64 && q % 2 == 1) {
                q + 1
            } else {
                q
            }
        };
        proof {
            assert(tenths == average_tenths(self@.history, 5));
        }
        let mut out = String::from_str("Regime: ");
        out.append(self.current_regime.name());
        out.append(" | High: ");
        push_decimal(&mut out, self.high_occupancy_frames as u64);
        out.append("/");
        push_decimal(&mut out, self.up_frames_required as u64);
        out.append(" | Low: ");
        push_decimal(&mut out, self.low_occupancy_frames as u64);
        out.append("/");
        push_decimal(&mut out, self.down_frames_required as u64);
        out.append(" | Avg Occupancy: ");
        push_decimal(&mut out, tenths / 10);
        out.append(".");
        push_decimal(&mut out, tenths % 10);
        proof {
            assert(decimal((tenths % 10) as nat) == seq![decimal_digit((tenths % 10) as nat)]);
            assert(out@ =~= diagnostic_text(self@));
        }
        out
    }
}

impl Default for RegimeFsm {
    fn default() -> (fsm: Self)
        ensures
            fsm@ == FsmView::initial(),
    {
        Self::new()
    }
}

} // verus!
