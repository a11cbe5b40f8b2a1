//! The vocabulary of keyframe tweens: easing curves, repetition and errors,
//! the counting of passes, and the identifiers and lifetimes of tween tracks.
use vstd::prelude::*;

verus! {

/// Common easing curves for tweened values.
#[derive(Clone, Copy, Debug, Default, PartialEq, Eq)]
pub enum Easing {
    /// Constant-rate interpolation.
    #[default]
    Linear,
    /// Starts slowly and accelerates.
    EaseIn,
    /// Starts quickly and decelerates.
    EaseOut,
    /// Accelerates through the first half and decelerates through the second.
    EaseInOut,
}

/// Controls how many times a tween runs after its first pass.
#[derive(Clone, Copy, Debug, Default, PartialEq, Eq)]
pub enum Repeat {
    /// Runs once and finishes at the final keyframe.
    #[default]
    Once,
    /// Runs `count` additional times after the first pass.
    Count(u32),
    /// Repeats until it is cancelled or removed.
    Forever,
}

/// Errors returned when constructing a keyframe tween.
#[derive(Clone, Copy, Debug, PartialEq, Eq)]
pub enum TweenError {
    /// A tween path needs at least a start and an end keyframe.
    NotEnoughKeyframes,
    /// A tween duration must be finite and non-negative.
    InvalidDuration,
}

/// Stable identifier for a registered scene tween.
#[derive(Clone, Copy, Debug, PartialEq, Eq, Hash)]
pub struct TweenId(pub usize);


/// The pass-counting state of a tween: its repeat policy, how many repeats it
/// has completed, whether it plays backwards, and whether it has finished.
/// Time within a pass is kept by the tween itself.
#[derive(Clone, Copy, Debug, PartialEq, Eq)]
pub struct TweenCycles {
    /// How many times the tween runs after its first pass.
    pub repeat: Repeat,
    /// Repeats completed so far.
    pub completed_repeats: u32,
    /// Whether the direction flips on every repeat.
    pub yoyo: bool,
    /// Whether the current pass runs from the last keyframe to the first.
    pub reversed: bool,
    /// Whether every pass has completed.
    pub finished: bool,
}

/// What skipping whole passes did to a tween.
#[derive(Clone, Copy, Debug, PartialEq, Eq)]
pub enum CycleSkip {
    /// No whole pass was skipped.
    Unchanged,
    /// Whole passes were skipped and the tween starts a fresh pass.
    Repeated,
    /// The tween ran out of passes and rests at the end of its final pass.
    Finished,
}

/// `a + b`, at most `u32::MAX`.
pub open spec fn saturating(a: int, b: int) -> u32 {
    if a + b > u32::MAX { u32::MAX } else { (a + b) as u32 }
}

/// The state after the current pass ends: another pass starts (flipping
/// direction for a yoyo tween) while the repeat policy allows one, otherwise
/// the tween finishes.
pub open spec fn advanced(s: TweenCycles) -> TweenCycles {
    let should_repeat = match s.repeat {
        Repeat::Once => false,
        Repeat::Count(count) => s.completed_repeats < count,
        Repeat::Forever => true,
    };
    if !should_repeat {
        TweenCycles { finished: true, ..s }
    } else {
        TweenCycles {
            completed_repeats: saturating(s.completed_repeats as int, 1),
            reversed: if s.yoyo { !s.reversed } else { s.reversed },
            ..s
        }
    }
}

/// The state after `k` passes end one after another.
pub open spec fn advanced_times(s: TweenCycles, k: nat) -> TweenCycles
    decreases k,
{
    if k == 0 { s } else { advanced_times(advanced(s), (k - 1) as nat) }
}

/// `reversed` flipped when a yoyo tween changes direction `k` times.
pub open spec fn flipped_by(reversed: bool, yoyo: bool, k: int) -> bool {
    if yoyo && k % 2 == 1 { !reversed } else { reversed }
}

/// The state and outcome after `k` whole passes are skipped at once.
pub open spec fn skipped(s: TweenCycles, k: u64) -> (TweenCycles, CycleSkip) {
    if k == 0 {
        (s, CycleSkip::Unchanged)
    } else {
        match s.repeat {
            Repeat::Count(count) => {
                let until = (if count > s.completed_repeats { count - s.completed_repeats } else { 0 }) + 1;
                if k >= until {
                    (TweenCycles { reversed: flipped_by(s.reversed, s.yoyo, until - 1), finished: true, ..s }, CycleSkip::Finished)
                } else {
                    (TweenCycles {
                        completed_repeats: saturating(s.completed_repeats as int, k as int),
                        reversed: flipped_by(s.reversed, s.yoyo, k as int),
                        ..s
                    }, CycleSkip::Repeated)
                }
            },
            _ => (TweenCycles {
                completed_repeats: saturating(s.completed_repeats as int, if k > u32::MAX { u32::MAX as int } else { k as int }),
                reversed: flipped_by(s.reversed, s.yoyo, k as int),
                ..s
            }, CycleSkip::Repeated),
        }
    }
}

impl TweenCycles {
    /// A tween that has not started: one pass, forwards, no yoyo.
    pub fn new() -> (cycles: Self)
        ensures
            cycles == (TweenCycles {
                repeat: Repeat::Once,
                completed_repeats: 0,
                yoyo: false,
                reversed: false,
                finished: false,
            }),
    {
        TweenCycles { repeat: Repeat::Once, completed_repeats: 0, yoyo: false, reversed: false, finished: false }
    }

    /// Ends the current pass: starts another while the repeat policy allows
    /// one, flipping direction for a yoyo tween, and finishes otherwise.
    pub fn advance_cycle(&mut self)
        ensures
            *final(self) == advanced(*old(self)),
    {
        let should_repeat: bool = match self.repeat {
            Repeat::Once => false,
            Repeat::Count(count) => self.completed_repeats < count,
            Repeat::Forever => true,
        };
        if !should_repeat {
            self.finished = true;
            return;
        }
        self.completed_repeats = self.completed_repeats.saturating_add(1);
        if self.yoyo {
            self.reversed = !self.reversed;
        }
    }

    /// Skips `full_cycles` whole passes at once, as if each had ended in
    /// turn; a one-shot tween has finished before any pass can be skipped.
    pub fn skip_full_cycles(&mut self, full_cycles: u64) -> (outcome: CycleSkip)
        requires
            full_cycles > 0 ==> !(old(self).repeat is Once),
        ensures
            (*final(self), outcome) == skipped(*old(self), full_cycles),
            full_cycles > 0 ==> ({
                let a = advanced_times(*old(self), full_cycles as nat);
                &&& final(self).finished == a.finished
                &&& final(self).reversed == a.reversed
                &&& !final(self).finished ==> final(self).completed_repeats == a.completed_repeats
            }),
    {
        proof {
            law_skipping_passes_matches_ending_them_one_by_one(*self, full_cycles);
        }
        if full_cycles == 0 {
            return CycleSkip::Unchanged;
        }
        match self.repeat {
            Repeat::Forever => {
                let capped: u32 = if full_cycles > u32::MAX as u64 { u32::MAX } else { full_cycles as u32 };
                self.completed_repeats = self.completed_repeats.saturating_add(capped);
                if self.yoyo && full_cycles % 2 == 1 {
                    self.reversed = !self.reversed;
                }
                CycleSkip::Repeated
            },
            Repeat::Count(count) => {
                let cycles_until_finish: u64 = count.saturating_sub(self.completed_repeats) as u64 + 1;
                if full_cycles >= cycles_until_finish {
                    if self.yoyo && (cycles_until_finish - 1) % 2 == 1 {
                        self.reversed = !self.reversed;
                    }
                    self.finished = true;
                    CycleSkip::Finished
                } else {
                    self.completed_repeats = self.completed_repeats.saturating_add(full_cycles as u32);
                    if self.yoyo && full_cycles % 2 == 1 {
                        self.reversed = !self.reversed;
                    }
                    CycleSkip::Repeated
                }
            },
            Repeat::Once => CycleSkip::Unchanged,
        }
    }
}


proof fn lemma_forever_passes(s: TweenCycles, k: nat)
    requires
        s.repeat is Forever,
    ensures
        advanced_times(s, k) == (TweenCycles {
            completed_repeats: saturating(s.completed_repeats as int, k as int),
            reversed: flipped_by(s.reversed, s.yoyo, k as int),
            ..s
        }),
    decreases k,
{
    if k > 0 {
        lemma_forever_passes(advanced(s), (k - 1) as nat);
    }
}

proof fn lemma_counted_passes(s: TweenCycles, k: nat)
    requires
        s.repeat is Count,
    ensures
        ({
            let left = if s.repeat->0 > s.completed_repeats { s.repeat->0 - s.completed_repeats } else { 0 };
            if k <= left {
                advanced_times(s, k) == TweenCycles {
                    completed_repeats: (s.completed_repeats + k) as u32,
                    reversed: flipped_by(s.reversed, s.yoyo, k as int),
                    ..s
                }
            } else {
                advanced_times(s, k) == TweenCycles {
                    completed_repeats: (s.completed_repeats + left) as u32,
                    reversed: flipped_by(s.reversed, s.yoyo, left),
                    finished: true,
                    ..s
                }
            }
        }),
    decreases k,
{
    if k > 0 {
        lemma_counted_passes(advanced(s), (k - 1) as nat);
    }
}

/// Skipping `k` whole passes at once ends in the state that ending them one
/// after another reaches: finished or not, in the same direction, and with
/// the same count of repeats while the tween runs on.
pub proof fn law_skipping_passes_matches_ending_them_one_by_one(s: TweenCycles, k: u64)
    requires
        k > 0 ==> !(s.repeat is Once),
    ensures
        ({
            let (t, _) = skipped(s, k);
            let a = advanced_times(s, k as nat);
            &&& t.finished == a.finished
            &&& t.reversed == a.reversed
            &&& t.repeat == a.repeat
            &&& t.yoyo == a.yoyo
            &&& !t.finished ==> t.completed_repeats == a.completed_repeats
        }),
{
    if k > 0 {
        if s.repeat is Forever {
            lemma_forever_passes(s, k as nat);
        } else {
            lemma_counted_passes(s, k as nat);
        }
    }
}

/// A tween that repeats `count` times finishes when its `count + 1`-th pass
/// ends, and not before.
pub proof fn law_counted_tween_runs_count_plus_one_passes(count: u32, yoyo: bool)
    ensures
        ({
            let s = TweenCycles { repeat: Repeat::Count(count), completed_repeats: 0, yoyo, reversed: false, finished: false };
            &&& advanced_times(s, count as nat + 1).finished
            &&& !advanced_times(s, count as nat).finished
        }),
{
    let s = TweenCycles { repeat: Repeat::Count(count), completed_repeats: 0, yoyo, reversed: false, finished: false };
    lemma_counted_passes(s, count as nat + 1);
    lemma_counted_passes(s, count as nat);
}


/// The tracks of a tween manager, each under the identifier it was given
/// when added; identifiers count up from zero.
pub struct TweenTracks<T> {
    next_id: usize,
    tracks: Vec<(TweenId, T)>,
    added: Ghost<nat>,
}

/// `tracks` without the tracks under `id`, in order.
pub open spec fn without_id<T>(tracks: Seq<(TweenId, T)>, id: TweenId) -> Seq<(TweenId, T)>
    decreases tracks.len(),
{
    if tracks.len() == 0 {
        tracks
    } else if tracks.last().0 == id {
        without_id(tracks.drop_last(), id)
    } else {
        without_id(tracks.drop_last(), id).push(tracks.last())
    }
}

/// The tracks whose flag in `finished` is not set, in order.
pub open spec fn unfinished<T>(tracks: Seq<(TweenId, T)>, finished: Seq<bool>) -> Seq<(TweenId, T)>
    decreases tracks.len(),
{
    if tracks.len() == 0 {
        tracks
    } else if finished[tracks.len() - 1] {
        unfinished(tracks.drop_last(), finished)
    } else {
        unfinished(tracks.drop_last(), finished).push(tracks.last())
    }
}

/// Whether a track is held under `id`.
pub open spec fn holds_id<T>(tracks: Seq<(TweenId, T)>, id: TweenId) -> bool {
    exists|i: int| 0 <= i < tracks.len() && (#[trigger] tracks[i]).0 == id
}

/// Whether every identifier in `tracks` is below `bound`.
pub open spec fn ids_below<T>(tracks: Seq<(TweenId, T)>, bound: int) -> bool {
    forall|i: int| 0 <= i < tracks.len() ==> (#[trigger] tracks[i]).0.0 < bound
}

proof fn lemma_without_id<T>(tracks: Seq<(TweenId, T)>, id: TweenId, bound: int)
    ensures
        !holds_id(without_id(tracks, id), id),
        without_id(tracks, id).len() == tracks.len() <==> !holds_id(tracks, id),
        without_id(tracks, id).len() <= tracks.len(),
        ids_below(tracks, bound) ==> ids_below(without_id(tracks, id), bound),
    decreases tracks.len(),
{
    if tracks.len() > 0 {
        let rest = tracks.drop_last();
        lemma_without_id(rest, id, bound);
        let result = without_id(tracks, id);
        if holds_id(rest, id) {
            let w = choose|w: int| 0 <= w < rest.len() && (#[trigger] rest[w]).0 == id;
            assert(tracks[w].0 == id);
        }
        if tracks.last().0 != id && !holds_id(rest, id) {
            assert forall|i: int| 0 <= i < tracks.len() implies (#[trigger] tracks[i]).0 != id by {
                if i < rest.len() {
                    assert(tracks[i] == rest[i]);
                }
            }
        }
        if holds_id(result, id) {
            let w = choose|w: int| 0 <= w < result.len() && (#[trigger] result[w]).0 == id;
            if w < without_id(rest, id).len() {
                assert(without_id(rest, id)[w].0 == id);
            }
        }
        if ids_below(tracks, bound) {
            assert forall|i: int| 0 <= i < rest.len() implies (#[trigger] rest[i]).0.0 < bound by {
                assert(rest[i] == tracks[i]);
            }
            assert forall|i: int| 0 <= i < result.len() implies (#[trigger] result[i]).0.0 < bound by {
                if i < without_id(rest, id).len() {
                    assert(result[i] == without_id(rest, id)[i]);
                }
            }
        }
    }
}

proof fn lemma_unfinished<T>(tracks: Seq<(TweenId, T)>, finished: Seq<bool>, bound: int)
    ensures
        ids_below(tracks, bound) ==> ids_below(unfinished(tracks, finished), bound),
    decreases tracks.len(),
{
    if tracks.len() > 0 {
        let rest = tracks.drop_last();
        lemma_unfinished(rest, finished, bound);
        let result = unfinished(tracks, finished);
        if ids_below(tracks, bound) {
            assert forall|i: int| 0 <= i < rest.len() implies (#[trigger] rest[i]).0.0 < bound by {
                assert(rest[i] == tracks[i]);
            }
            assert forall|i: int| 0 <= i < result.len() implies (#[trigger] result[i]).0.0 < bound by {
                if i < unfinished(rest, finished).len() {
                    assert(result[i] == unfinished(rest, finished)[i]);
                }
            }
        }
    }
}

impl<T> TweenTracks<T> {
    /// The tracks, in the order they were added.
    pub closed spec fn tracks(&self) -> Seq<(TweenId, T)> {
        self.tracks@
    }

    /// The identifier the next track gets.
    pub closed spec fn next_id(&self) -> usize {
        self.next_id
    }

    /// How many tracks have been added.
    pub closed spec fn added(&self) -> nat {
        self.added@
    }

    /// Until the identifiers wrap around, the next identifier is the number of
    /// tracks added, and every track's identifier is below it.
    pub open spec fn wf(&self) -> bool {
        self.added() <= usize::MAX ==> {
            &&& self.next_id() == self.added()
            &&& ids_below(self.tracks(), self.next_id() as int)
        }
    }

    /// No tracks, and the first identifier is zero.
    pub fn new() -> (tracks: Self)
        ensures
            tracks.wf(),
            tracks.tracks() == Seq::<(TweenId, T)>::empty(),
            tracks.next_id() == 0,
            tracks.added() == 0,
    {
        TweenTracks { next_id: 0, tracks: Vec::new(), added: Ghost(0) }
    }

    /// Adds `track` under the next identifier, which it returns. Until the
    /// identifiers wrap around, no active track has that identifier.
    pub fn add(&mut self, track: T) -> (id: TweenId)
        requires
            old(self).wf(),
        ensures
            final(self).wf(),
            id.0 == old(self).next_id(),
            final(self).tracks() == old(self).tracks().push((id, track)),
            final(self).next_id() == if old(self).next_id() == usize::MAX { 0 } else { (old(self).next_id() + 1) as usize },
            final(self).added() == old(self).added() + 1,
            old(self).added() <= usize::MAX ==> !holds_id(old(self).tracks(), id),
    {
        let id = TweenId(self.next_id);
        self.next_id = self.next_id.wrapping_add(1);
        let ghost before = self.tracks@;
        self.tracks.push((id, track));
        self.added = Ghost(self.added@ + 1);
        proof {
            if self.added@ <= usize::MAX {
                assert forall|i: int| 0 <= i < self.tracks@.len() implies (#[trigger] self.tracks@[i]).0.0 < self.next_id by {
                    if i < before.len() {
                        assert(self.tracks@[i] == before[i]);
                    }
                }
            }
        }
        id
    }

    /// Cancels the tracks under `id`, returning whether one was active.
    pub fn cancel(&mut self, id: TweenId) -> (cancelled: bool)
        requires
            old(self).wf(),
        ensures
            final(self).wf(),
            final(self).tracks() == without_id(old(self).tracks(), id),
            final(self).next_id() == old(self).next_id(),
            final(self).added() == old(self).added(),
            cancelled == holds_id(old(self).tracks(), id),
            !holds_id(final(self).tracks(), id),
    {
        let ghost before = self.tracks@;
        let old_len: usize = self.tracks.len();
        let mut i: usize = 0;
        let ghost mut j: int = 0;
        while i < self.tracks.len()
            invariant
                0 <= i <= j <= before.len(),
                self.tracks@ == without_id(before.take(j), id) + before.skip(j),
                i == without_id(before.take(j), id).len(),
                self.next_id == old(self).next_id,
                self.added == old(self).added,
            decreases before.len() - j,
        {
            proof {
                assert(before.take(j + 1).drop_last() =~= before.take(j));
                assert(before.take(j + 1).last() == before[j]);
                assert(self.tracks@[i as int] == before[j]);
            }
            if self.tracks[i].0.0 == id.0 {
                self.tracks.remove(i);
                proof {
                    assert(self.tracks@ =~= without_id(before.take(j + 1), id) + before.skip(j + 1));
                }
            } else {
                proof {
                    assert(self.tracks@ =~= without_id(before.take(j + 1), id) + before.skip(j + 1));
                }
                i = i + 1;
            }
            proof {
                j = j + 1;
            }
        }
        proof {
            assert(before.take(j) =~= before);
            lemma_without_id(before, id, self.next_id as int);
        }
        self.tracks.len() != old_len
    }

    /// Keeps the tracks whose flag in `finished` is not set, in order.
    pub fn retain_unfinished(&mut self, finished: &[bool])
        requires
            old(self).wf(),
            finished@.len() == old(self).tracks().len(),
        ensures
            final(self).wf(),
            final(self).tracks() == unfinished(old(self).tracks(), finished@),
            final(self).next_id() == old(self).next_id(),
            final(self).added() == old(self).added(),
    {
        let ghost before = self.tracks@;
        let mut i: usize = 0;
        let mut j: usize = 0;
        while j < finished.len()
            invariant
                0 <= i <= j <= before.len(),
                finished@.len() == before.len(),
                self.tracks@ == unfinished(before.take(j as int), finished@) + before.skip(j as int),
                i == unfinished(before.take(j as int), finished@).len(),
                self.next_id == old(self).next_id,
                self.added == old(self).added,
            decreases before.len() - j,
        {
            proof {
                assert(before.take(j + 1).drop_last() =~= before.take(j as int));
                assert(before.take(j + 1).last() == before[j as int]);
                assert(self.tracks@[i as int] == before[j as int]);
            }
            if finished[j] {
                self.tracks.remove(i);
                proof {
                    assert(self.tracks@ =~= unfinished(before.take(j + 1), finished@) + before.skip(j + 1));
                }
            } else {
                proof {
                    assert(self.tracks@ =~= unfinished(before.take(j + 1), finished@) + before.skip(j + 1));
                }
                i = i + 1;
            }
            j = j + 1;
        }
        proof {
            assert(before.take(j as int) =~= before);
            lemma_unfinished(before, finished@, self.next_id as int);
        }
    }

    /// Cancels every track.
    pub fn clear(&mut self)
        requires
            old(self).wf(),
        ensures
            final(self).wf(),
            final(self).tracks() == Seq::<(TweenId, T)>::empty(),
            final(self).next_id() == old(self).next_id(),
            final(self).added() == old(self).added(),
    {
        self.tracks.clear();
    }

    /// Whether a track under `id` is active.
    pub fn is_active(&self, id: TweenId) -> (active: bool)
        ensures
            active == holds_id(self.tracks(), id),
    {
        let mut i: usize = 0;
        while i < self.tracks.len()
            invariant
                i <= self.tracks@.len(),
                forall|k: int| 0 <= k < i ==> (#[trigger] self.tracks@[k]).0 != id,
            decreases self.tracks@.len() - i,
        {
            if self.tracks[i].0.0 == id.0 {
                return true;
            }
            i = i + 1;
        }
        false
    }

    /// The number of active tracks.
    pub fn len(&self) -> (count: usize)
        ensures
            count == self.tracks().len(),
    {
        self.tracks.len()
    }

    /// Whether no track is active.
    pub fn is_empty(&self) -> (empty: bool)
        ensures
            empty == (self.tracks().len() == 0),
    {
        self.tracks.len() == 0
    }

    /// The identifier of the track at `index`.
    pub fn id_at(&self, index: usize) -> (id: TweenId)
        requires
            index < self.tracks().len(),
        ensures
            id == self.tracks()[index as int].0,
    {
        self.tracks[index].0
    }

    /// The track at `index`, for updating it.
    pub fn get_mut(&mut self, index: usize) -> (track: &mut T)
        requires
            index < old(self).tracks().len(),
        ensures
            *track == old(self).tracks()[index as int].1,
            final(self).tracks() == old(self).tracks().update(index as int, (old(self).tracks()[index as int].0, *final(track))),
            final(self).next_id() == old(self).next_id(),
            final(self).added() == old(self).added(),
            old(self).wf() ==> final(self).wf(),
    {
        &mut self.tracks[index].1
    }
}

} // verus!
