use rustray::frame_control::{pixel_slot, FrameStats, FrameStep, LoopState};

#[test]
fn frame_completes_only_on_a_check_when_done() {
    let mut l = LoopState::new();
    let out = l.loop_update(500, true, true, false, false, false);
    assert!(!out.save_image);
    assert!(!l.stats.completed);
    assert!(out.changed);
    let out = l.loop_update(1000, false, false, false, false, false);
    assert!(!out.save_image);
    assert_eq!(l.stats.screen_update_time, 1000);
    let out = l.loop_update(2000, false, true, false, false, false);
    assert!(out.save_image);
    assert!(l.stats.completed);
    assert!(l.stopped);
    assert_eq!(out.step, FrameStep::Stay);
}

#[test]
fn pixel_rate_updates_every_interval() {
    let mut l = LoopState::new();
    for _ in 0..42 {
        l.stats.count_pixel();
    }
    l.loop_update(999, true, false, false, false, false);
    assert_eq!((l.stats.pps, l.stats.pps_current), (0, 42));
    l.loop_update(1000, true, false, false, false, false);
    assert_eq!((l.stats.pps, l.stats.pps_current), (42, 0));
    assert_eq!(l.stats.current_time, 1000);
}

#[test]
fn animation_advances_after_each_complete_frame() {
    let mut l = LoopState::new();
    let out = l.loop_update(1000, false, true, true, true, true);
    assert!(out.save_image);
    assert_eq!(out.step, FrameStep::Advance);
    assert!(out.changed);
    assert_eq!(l.stats.frame, 1);
    assert!(!l.stats.completed);
    assert!(!l.stopped);
    let out = l.loop_update(2000, false, true, true, true, false);
    assert_eq!(out.step, FrameStep::PrintHelp);
    assert!(l.help_printed);
    assert!(l.stopped);
    let out = l.loop_update(3000, false, true, true, true, false);
    assert_eq!(out.step, FrameStep::Stay);
    assert_eq!(l.stats.frame, 1);
}

#[test]
fn frame_step_decisions() {
    let mut l = LoopState::new();
    assert_eq!(l.next_frame_step(true, true, true), FrameStep::Stay);
    l.stats.completed = true;
    assert_eq!(l.next_frame_step(false, true, true), FrameStep::Stay);
    assert_eq!(l.next_frame_step(true, false, true), FrameStep::Stay);
    assert_eq!(l.next_frame_step(true, true, false), FrameStep::PrintHelp);
    assert_eq!(l.next_frame_step(true, true, false), FrameStep::Stay);
    assert_eq!(l.next_frame_step(true, true, true), FrameStep::Advance);
    assert_eq!(l.stats.frame, 1);
    l.restart();
    assert_eq!(l.stats.frame, 0);
    assert!(!l.help_printed);
}

#[test]
fn stats_reset() {
    let mut s = FrameStats::new();
    s.count_pixel();
    s.frame = 9;
    s.completed = true;
    s.reset();
    assert_eq!(s, FrameStats::new());
}

#[test]
fn pixel_slots() {
    assert_eq!(pixel_slot(2, 1, 4, 3), Some(6));
    assert_eq!(pixel_slot(0, 0, 4, 3), Some(0));
    assert_eq!(pixel_slot(4, 0, 4, 3), None);
    assert_eq!(pixel_slot(0, 3, 4, 3), None);
}
