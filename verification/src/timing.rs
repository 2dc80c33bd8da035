//! Global timing model.
use vstd::prelude::*;

verus! {

/// Master dots per scanline in the NTSC timing model.
pub const DOTS_PER_SCANLINE: u16 = 341;
/// Scanlines per NTSC frame in the timing model.
pub const NTSC_SCANLINES_PER_FRAME: u16 = 262;
/// First scanline treated as vertical blank.
pub const VBLANK_START_SCANLINE: u16 = 225;

/// High-level timing counters shared across subsystems.
#[derive(Debug, Clone, Copy, PartialEq, Eq, Structural)]
pub struct TimingState {
    /// Master clock ticks.
    pub master_clock: u64,
    /// Scanline number in the current frame.
    pub scanline: u16,
    /// Dot within the current scanline.
    pub dot: u16,
    /// Frame counter.
    pub frame: u64,
}

/// Notable timing transitions produced while advancing the clock.
#[derive(Debug, Clone, Copy, PartialEq, Eq, Structural)]
pub struct TimingEvents {
    /// True when one or more scanline boundaries were crossed.
    pub crossed_scanline: bool,
    /// True when VBlank started during this advance.
    pub entered_vblank: bool,
    /// True when a frame boundary was crossed.
    pub started_new_frame: bool,
}

impl Default for TimingState {
    fn default() -> (s: Self)
        ensures
            s == (TimingState { master_clock: 0, scanline: 0, dot: 0, frame: 0 }),
    {
        TimingState { master_clock: 0, scanline: 0, dot: 0, frame: 0 }
    }
}

impl Default for TimingEvents {
    fn default() -> (e: Self)
        ensures
            e == no_events(),
    {
        TimingEvents { crossed_scanline: false, entered_vblank: false, started_new_frame: false }
    }
}

/// The empty event set.
pub open spec fn no_events() -> TimingEvents {
    TimingEvents { crossed_scanline: false, entered_vblank: false, started_new_frame: false }
}

/// Union of two event sets.
pub open spec fn merge_events(a: TimingEvents, b: TimingEvents) -> TimingEvents {
    TimingEvents {
        crossed_scanline: a.crossed_scanline || b.crossed_scanline,
        entered_vblank: a.entered_vblank || b.entered_vblank,
        started_new_frame: a.started_new_frame || b.started_new_frame,
    }
}

/// State after one master clock tick.
pub open spec fn tick_state(s: TimingState) -> TimingState {
    let master_clock = s.master_clock.saturating_add(1);
    let dot = s.dot.wrapping_add(1);
    if dot < DOTS_PER_SCANLINE {
        TimingState { master_clock, dot, ..s }
    } else {
        let scanline = s.scanline.wrapping_add(1);
        if scanline < NTSC_SCANLINES_PER_FRAME {
            TimingState { master_clock, dot: 0, scanline, frame: s.frame }
        } else {
            TimingState { master_clock, dot: 0, scanline: 0, frame: s.frame.saturating_add(1) }
        }
    }
}

/// Events raised by one master clock tick.
pub open spec fn tick_events(s: TimingState) -> TimingEvents {
    let dot = s.dot.wrapping_add(1);
    if dot < DOTS_PER_SCANLINE {
        no_events()
    } else {
        let scanline = s.scanline.wrapping_add(1);
        TimingEvents {
            crossed_scanline: true,
            entered_vblank: scanline == VBLANK_START_SCANLINE,
            started_new_frame: scanline >= NTSC_SCANLINES_PER_FRAME,
        }
    }
}

/// State after `n` master clock ticks.
pub open spec fn advance_state(s: TimingState, n: nat) -> TimingState
    decreases n,
{
    if n == 0 {
        s
    } else {
        tick_state(advance_state(s, (n - 1) as nat))
    }
}

/// Events raised over `n` master clock ticks.
pub open spec fn advance_events(s: TimingState, n: nat) -> TimingEvents
    decreases n,
{
    if n == 0 {
        no_events()
    } else {
        merge_events(
            advance_events(s, (n - 1) as nat),
            tick_events(advance_state(s, (n - 1) as nat)),
        )
    }
}

impl TimingState {
    /// Whether the timing position is inside the vertical blank interval.
    pub open spec fn spec_in_vblank(&self) -> bool {
        self.scanline >= VBLANK_START_SCANLINE
    }

    /// Advance master-clock time and surface major timing transitions.
    pub fn advance_master_clocks(&mut self, clocks: u64) -> (events: TimingEvents)
        ensures
            *final(self) == advance_state(*old(self), clocks as nat),
            events == advance_events(*old(self), clocks as nat),
        no_unwind
    {
        let mut events = TimingEvents { crossed_scanline: false, entered_vblank: false, started_new_frame: false };
        let ghost start = *self;
        let mut i: u64 = 0;
        while i < clocks
            invariant
                i <= clocks,
                *self == advance_state(start, i as nat),
                events == advance_events(start, i as nat),
            decreases clocks - i,
        {
            let ghost before = *self;
            self.master_clock = if self.master_clock == u64::MAX { u64::MAX } else { self.master_clock + 1 };
            self.dot = if self.dot == u16::MAX { 0 } else { self.dot + 1 };
            if self.dot >= DOTS_PER_SCANLINE {
                self.dot = 0;
                self.scanline = if self.scanline == u16::MAX { 0 } else { self.scanline + 1 };
                events.crossed_scanline = true;
                if self.scanline == VBLANK_START_SCANLINE {
                    events.entered_vblank = true;
                }
                if self.scanline >= NTSC_SCANLINES_PER_FRAME {
                    self.scanline = 0;
                    self.frame = if self.frame == u64::MAX { u64::MAX } else { self.frame + 1 };
                    events.started_new_frame = true;
                }
            }
            assert(*self == tick_state(before));
            i = i + 1;
        }
        events
    }

    /// Whether the timing position is currently inside the vertical blank interval.
    #[verifier::when_used_as_spec(spec_in_vblank)]
    pub fn in_vblank(&self) -> (r: bool)
        ensures
            r == self.spec_in_vblank(),
    {
        self.scanline >= VBLANK_START_SCANLINE
    }
}

/// Advancing by `a` ticks and then by `b` ticks reaches the same timing state as advancing by
/// `a + b` ticks at once.
pub proof fn lemma_advance_composes(s: TimingState, a: nat, b: nat)
    ensures
        advance_state(advance_state(s, a), b) == advance_state(s, a + b),
    decreases b,
{
    if b > 0 {
        lemma_advance_composes(s, a, (b - 1) as nat);
        assert((a + b - 1) as nat == a + (b - 1) as nat);
    }
}

/// The master clock never runs backwards and the dot and scanline counters stay in range once
/// they start in range.
pub proof fn lemma_advance_keeps_ranges(s: TimingState, n: nat)
    requires
        s.dot < DOTS_PER_SCANLINE,
        s.scanline < NTSC_SCANLINES_PER_FRAME,
    ensures
        advance_state(s, n).dot < DOTS_PER_SCANLINE,
        advance_state(s, n).scanline < NTSC_SCANLINES_PER_FRAME,
        advance_state(s, n).master_clock >= s.master_clock,
        advance_state(s, n).frame >= s.frame,
    decreases n,
{
    if n > 0 {
        lemma_advance_keeps_ranges(s, (n - 1) as nat);
    }
}

/// The master clock counts every tick, saturating at `u64::MAX`.
pub proof fn lemma_advance_master_clock(s: TimingState, n: nat)
    ensures
        advance_state(s, n).master_clock == if s.master_clock + n > u64::MAX { u64::MAX as int } else { s.master_clock + n },
    decreases n,
{
    if n > 0 {
        lemma_advance_master_clock(s, (n - 1) as nat);
    }
}

/// Ticks one frame lasts: every dot of every scanline.
pub open spec fn frame_ticks() -> int {
    DOTS_PER_SCANLINE as int * NTSC_SCANLINES_PER_FRAME as int
}

/// How many ticks into its frame a timing position is.
pub open spec fn frame_position(s: TimingState) -> int {
    s.scanline as int * DOTS_PER_SCANLINE as int + s.dot as int
}

proof fn lemma_position_step(x: int)
    requires
        x >= 0,
    ensures
        (x + 1) % frame_ticks() == if x % frame_ticks() == frame_ticks() - 1 { 0 } else { x % frame_ticks() + 1 },
        (x + 1) / frame_ticks() == if x % frame_ticks() == frame_ticks() - 1 { x / frame_ticks() + 1 } else { x / frame_ticks() },
{
    let f = frame_ticks();
    assert(f == 89342);
    assert(x == f * (x / f) + x % f && 0 <= x % f < f) by (nonlinear_arith)
        requires f == 89342, x >= 0;
    assert((x + 1) == f * ((x + 1) / f) + (x + 1) % f && 0 <= (x + 1) % f < f) by (nonlinear_arith)
        requires f == 89342, x >= 0;
    if x % f == f - 1 {
        assert((x + 1) == f * (x / f + 1));
        vstd::arithmetic::div_mod::lemma_fundamental_div_mod_converse(x + 1, f, x / f + 1, 0);
    } else {
        vstd::arithmetic::div_mod::lemma_fundamental_div_mod_converse(x + 1, f, x / f, x % f + 1);
    }
}

/// Starting in range, `n` ticks move the position within the frame by `n` modulo a frame's
/// ticks, and the frame counter by the number of frame ends passed, saturating at `u64::MAX`.
pub proof fn lemma_advance_frame(s: TimingState, n: nat)
    requires
        s.dot < DOTS_PER_SCANLINE,
        s.scanline < NTSC_SCANLINES_PER_FRAME,
    ensures
        frame_position(advance_state(s, n)) == (frame_position(s) + n) % frame_ticks(),
        advance_state(s, n).frame == if s.frame + (frame_position(s) + n) / frame_ticks() > u64::MAX {
            u64::MAX as int
        } else {
            s.frame + (frame_position(s) + n) / frame_ticks()
        },
    decreases n,
{
    if n == 0 {
        let p = frame_position(s);
        assert(0 <= p < frame_ticks());
        vstd::arithmetic::div_mod::lemma_fundamental_div_mod_converse(p, frame_ticks(), 0, p);
    } else {
        lemma_advance_frame(s, (n - 1) as nat);
        lemma_advance_keeps_ranges(s, (n - 1) as nat);
        lemma_position_step(frame_position(s) + n - 1);
    }
}

} // verus!
