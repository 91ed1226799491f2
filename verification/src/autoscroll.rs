//! Autoscroll state machine of the log view.
//!
//! The display layer reports, after each render, the current scroll offset,
//! the maximum scroll offset, and whether a scroll-causing input occurred.
//! While `Following`, the view is kept at the newest content; a scroll input
//! away from the bottom pins the view, and returning to the bottom resumes
//! following.

use vstd::prelude::*;

verus! {

/// Autoscroll mode: `Following` keeps the viewport at the newest content;
/// `Pinned` leaves the viewport where the user put it.
#[derive(Clone, Copy, Debug, PartialEq, Eq, Structural)]
pub enum ScrollMode {
    Following,
    Pinned,
}

/// One end-of-render report from the display layer: current scroll offset,
/// maximum scroll offset, and whether a scroll-causing input occurred.
pub struct ScrollSignal {
    pub offset: u64,
    pub max: u64,
    pub scrolled: bool,
}

/// The mode after one report: at the bottom the view resumes following;
/// a scroll input away from the bottom pins it; otherwise nothing changes.
pub open spec fn next_mode(m: ScrollMode, offset: u64, max: u64, scrolled: bool) -> ScrollMode {
    if offset == max {
        ScrollMode::Following
    } else if scrolled {
        ScrollMode::Pinned
    } else {
        m
    }
}

/// The offset the display is told to show: the bottom while following,
/// the reported offset while pinned.
pub open spec fn spec_target_offset(m: ScrollMode, offset: u64, max: u64) -> u64 {
    if m is Following {
        max
    } else {
        offset
    }
}

/// The mode after a whole sequence of reports, oldest first.
pub open spec fn run_mode(m: ScrollMode, signals: Seq<ScrollSignal>) -> ScrollMode
    decreases signals.len(),
{
    if signals.len() == 0 {
        m
    } else {
        let prev = run_mode(m, signals.drop_last());
        let s = signals.last();
        next_mode(prev, s.offset, s.max, s.scrolled)
    }
}

impl ScrollMode {
    /// Fold one display report into the mode.
    pub fn observe(&mut self, offset: u64, max: u64, scrolled: bool)
        requires
            offset <= max,
        ensures
            *final(self) == next_mode(*old(self), offset, max, scrolled),
    {
        if offset == max {
            *self = ScrollMode::Following;
        } else if scrolled {
            *self = ScrollMode::Pinned;
        }
    }

    /// The offset the display should apply for this render.
    pub fn target_offset(&self, offset: u64, max: u64) -> (r: u64)
        ensures
            r == spec_target_offset(*self, offset, max),
    {
        match self {
            ScrollMode::Following => max,
            ScrollMode::Pinned => offset,
        }
    }
}

/// While the view sits at the bottom — as it does when each append is followed
/// by the instructed jump to the newest content — the mode stays `Following`,
/// however many reports arrive and whatever inputs they carry.
pub proof fn lemma_following_stays(signals: Seq<ScrollSignal>)
    requires
        forall|i: int| 0 <= i < signals.len() ==> (#[trigger] signals[i]).offset == signals[i].max,
    ensures
        forall|k: int|
            0 <= k <= signals.len() ==> run_mode(ScrollMode::Following, #[trigger] signals.take(k))
                == ScrollMode::Following,
    decreases signals.len(),
{
    if signals.len() > 0 {
        lemma_following_stays(signals.drop_last());
        assert(forall|k: int|
            0 <= k < signals.len() ==> #[trigger] signals.take(k) == signals.drop_last().take(k));
        assert(signals.take(signals.len() as int) == signals);
    } else {
        assert(signals.take(0) == signals);
    }
}

/// While the view stays above the bottom, a pinned mode is never left and the
/// display is never told to jump: the target offset of every report stays the
/// reported offset, not the maximum.
pub proof fn lemma_pinned_not_forced(signals: Seq<ScrollSignal>)
    requires
        forall|i: int| 0 <= i < signals.len() ==> (#[trigger] signals[i]).offset < signals[i].max,
    ensures
        forall|k: int|
            0 <= k <= signals.len() ==> run_mode(ScrollMode::Pinned, #[trigger] signals.take(k))
                == ScrollMode::Pinned,
        forall|i: int|
            0 <= i < signals.len() ==> spec_target_offset(
                run_mode(ScrollMode::Pinned, signals.take(i)),
                (#[trigger] signals[i]).offset,
                signals[i].max,
            ) == signals[i].offset,
    decreases signals.len(),
{
    if signals.len() > 0 {
        lemma_pinned_not_forced(signals.drop_last());
        assert(forall|k: int|
            0 <= k < signals.len() ==> #[trigger] signals.take(k) == signals.drop_last().take(k));
        assert(signals.take(signals.len() as int) == signals);
    } else {
        assert(signals.take(0) == signals);
    }
}

/// A report from the bottom of the view always resumes following, whatever
/// mode the machine was in and whether or not an input occurred.
pub proof fn lemma_bottom_resumes_following(m: ScrollMode, max: u64, scrolled: bool)
    ensures
        next_mode(m, max, max, scrolled) == ScrollMode::Following,
{
}

} // verus!
