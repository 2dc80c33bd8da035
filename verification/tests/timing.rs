use starbyte::timing::{TimingState, DOTS_PER_SCANLINE, NTSC_SCANLINES_PER_FRAME};

#[test]
fn advancing_in_two_steps_equals_advancing_once() {
    let mut split = TimingState::default();
    split.advance_master_clocks(1000);
    split.advance_master_clocks(250_000);
    let mut once = TimingState::default();
    once.advance_master_clocks(251_000);
    assert_eq!(split, once);
}

#[test]
fn one_frame_of_clocks_wraps_to_the_next_frame() {
    let mut timing = TimingState::default();
    let events = timing.advance_master_clocks(u64::from(DOTS_PER_SCANLINE) * u64::from(NTSC_SCANLINES_PER_FRAME));
    assert_eq!(timing.frame, 1);
    assert_eq!(timing.scanline, 0);
    assert_eq!(timing.dot, 0);
    assert!(events.entered_vblank);
    assert!(events.started_new_frame);
}
