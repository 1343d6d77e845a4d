use countdown::clock::TimerClock;
use countdown::frame::FrameController;
use countdown::frame::InputEvent;
use countdown::layout::BounceLayout;
use countdown::layout::FontMetrics;
use countdown::layout::Viewport;
use countdown::signal::CompletionSignaler;
use countdown::timefmt::format_remaining;

fn plain_metrics() -> FontMetrics {
    // A font with no padding above the ascent and nothing below the baseline.
    FontMetrics { height: 10, ascent: 10, descent: 0 }
}

#[test]
fn clock_drains_in_ceil_ticks_and_stays_finished() {
    // remaining = 10 ticks, dt = 3: ceil(10 / 3) = 4 ticks reach zero.
    let mut c = TimerClock { remaining: 10, paused: false };
    for _ in 0..3u32 {
        c.tick(3);
        assert!(c.is_active());
    }
    c.tick(3);
    assert!(!c.is_active());
    // Never resurrects: the remainder is frozen.
    let frozen: i64 = c.remaining_ticks();
    for _ in 0..100u32 {
        c.tick(3);
        assert!(!c.is_active());
        assert_eq!(frozen, c.remaining_ticks());
    }
}

#[test]
fn clock_exact_divisor_needs_exactly_r_over_dt_ticks() {
    let mut c = TimerClock { remaining: 12, paused: false };
    for _ in 0..3u32 {
        c.tick(4);
    }
    assert!(!c.is_active());
    assert_eq!(0, c.remaining_ticks());
}

#[test]
fn pause_halts_and_resumes_from_exact_value() {
    let mut c = TimerClock::new(5);
    c.tick(7);
    let before: i64 = c.remaining_ticks();
    c.toggle_pause();
    for _ in 0..50u32 {
        c.tick(1);
    }
    assert_eq!(before, c.remaining_ticks());
    c.toggle_pause();
    c.tick(1);
    assert_eq!(before - 1, c.remaining_ticks());
}

#[test]
fn double_toggle_restores_pause_state() {
    let mut c = TimerClock::new(5);
    assert!(!c.is_paused());
    c.toggle_pause();
    c.toggle_pause();
    assert!(!c.is_paused());
    c.toggle_pause();
    assert!(c.is_paused());
}

#[test]
fn toggling_a_finished_timer_is_a_no_op() {
    let mut c = TimerClock { remaining: 0, paused: false };
    c.toggle_pause();
    assert!(!c.is_paused());
}

#[test]
fn formatting_clamps_negative_to_zero() {
    // -5 seconds is -300 ticks; it formats exactly as zero does.
    assert_eq!(format_remaining(-300).as_str(), "00:00:00.00");
    assert_eq!(format_remaining(-300), format_remaining(0));
}

#[test]
fn formatting_exact_values() {
    assert_eq!(format_remaining(3670 * 60).as_str(), "01:01:10.00");
    assert_eq!(format_remaining(90 * 60).as_str(), "00:01:30.00");
    assert_eq!(format_remaining(30).as_str(), "00:00:00.50");
    // 59.983 s floors to 59 seconds: never shown as a rounded-up minute.
    assert_eq!(format_remaining(3599).as_str(), "00:00:59.98");
    // Hours wider than two digits keep all their digits.
    assert_eq!(format_remaining(100 * 3600 * 60).as_str(), "100:00:00.00");
}

#[test]
fn signaler_fires_exactly_once_across_a_thousand_frames() {
    let mut s = CompletionSignaler::new();
    assert!(!s.evaluate(true, 1));
    let mut fires: u32 = 0;
    for _ in 0..1000u32 {
        if s.evaluate(false, 1) {
            fires += 1;
        }
    }
    assert_eq!(1, fires);
}

#[test]
fn signaler_blink_is_one_hz_half_duty() {
    let mut s = CompletionSignaler::new();
    let mut pattern = Vec::new();
    for _ in 0..120u32 {
        s.evaluate(false, 1);
        pattern.push(s.visible());
    }
    // Ticks 1..=29 visible, 30..=59 dark, then again.
    assert!(pattern[0]);
    assert!(pattern[28]);
    assert!(!pattern[29]);
    assert!(!pattern[58]);
    assert!(pattern[59]);
    assert!(pattern[88]);
    assert!(!pattern[89]);
}

#[test]
fn bounce_flips_at_right_wall_once() {
    let mut l = BounceLayout::new_bounce();
    let vp = Viewport { width: 100, height: 1000 };
    let fm = plain_metrics();
    // Box width is 25; moving right at 3 px/frame from x = 0, the wall test
    // x + 25 >= 100 first holds on the frame that reaches x = 75.
    let mut flips: u32 = 0;
    let mut last_vx: i32 = 3;
    for _ in 0..30u32 {
        l.update(&vp, &fm);
        let vx: i32 = l.velocity.unwrap().x;
        if vx != last_vx {
            flips += 1;
            // The flip happens exactly when the updated box touches the wall.
            assert!(l.x + l.width as i32 >= vp.width);
            assert_eq!(75, l.x);
        }
        last_vx = vx;
    }
    assert_eq!(1, flips);
    // One frame of overshoot at most: position stayed within one step.
    assert!(l.x >= -3 && l.x <= vp.width - l.width as i32 + 3);
}

#[test]
fn bounce_flips_back_at_left_wall() {
    let mut l = BounceLayout::new_bounce();
    let vp = Viewport { width: 100, height: 1000 };
    let fm = plain_metrics();
    let mut signs = Vec::new();
    for _ in 0..60u32 {
        l.update(&vp, &fm);
        signs.push(l.velocity.unwrap().x);
    }
    // Sign sequence: right until the right wall, left until the left wall,
    // then right again; each crossing flips exactly once.
    let mut flips: u32 = 0;
    for w in signs.windows(2) {
        if w[0] != w[1] {
            flips += 1;
        }
    }
    assert_eq!(2, flips);
}

#[test]
fn bounce_vertical_flip_uses_font_padding() {
    // A font whose glyphs occupy the lower half of the box: ascent = 5 of
    // height 10 means half the box height is padding above the glyphs.
    let fm = FontMetrics { height: 10, ascent: 5, descent: 0 };
    let vp = Viewport { width: 10_000, height: 100 };
    let mut l = BounceLayout {
        x: 5000,
        y: 50,
        width: 0,
        height: 0,
        velocity: Some(countdown::layout::Velocity { x: 3, y: -3 }),
    };
    // Box height 25, top padding 12: moving up, the test y + 12 <= 0 first
    // holds at y = -13, while the raw box top would not flip until y <= 0.
    let mut flip_y: Option<i32> = None;
    for _ in 0..40u32 {
        l.update(&vp, &fm);
        if l.velocity.unwrap().y == 3 && flip_y.is_none() {
            flip_y = Some(l.y);
        }
    }
    assert_eq!(Some(-13), flip_y);
}

#[test]
fn static_layout_is_fixed_fraction_of_viewport() {
    let mut l = BounceLayout::new_static();
    let fm = plain_metrics();
    l.update(&Viewport { width: 200, height: 100 }, &fm);
    assert_eq!((20, 10, 160, 80), (l.x, l.y, l.width, l.height));
}

#[test]
fn resize_rescales_on_the_very_next_frame() {
    let fm = plain_metrics();
    let mut ctrl = FrameController::new(10, false, 200, 100);
    let out = ctrl.frame(&fm);
    assert_eq!((20, 10, 160, 80), (out.rect.x, out.rect.y, out.rect.width, out.rect.height));
    // A live resize: the next frame rescales, no restart needed.
    assert!(!ctrl.handle_event(InputEvent::Resized(400, 300)));
    let out = ctrl.frame(&fm);
    assert_eq!((40, 30, 320, 240), (out.rect.x, out.rect.y, out.rect.width, out.rect.height));
}

#[test]
fn resize_rescales_bounce_box_too() {
    let fm = plain_metrics();
    let mut ctrl = FrameController::new(10, true, 400, 400);
    let out = ctrl.frame(&fm);
    assert_eq!((100, 100), (out.rect.width, out.rect.height));
    ctrl.handle_event(InputEvent::Resized(800, 200));
    let out = ctrl.frame(&fm);
    assert_eq!((200, 50), (out.rect.width, out.rect.height));
}

#[test]
fn frame_loop_runs_down_fires_once_and_blinks() {
    let fm = plain_metrics();
    // One second at 60 ticks per second.
    let mut ctrl = FrameController::new(1, false, 200, 100);
    let mut fires: u32 = 0;
    for i in 0..60u32 {
        let out = ctrl.frame(&fm);
        assert!(!out.fire);
        // While active every frame draws the text at full brightness.
        assert!(out.draw_text);
        assert!(!out.paused);
        let _ = i;
    }
    // The clock reached zero on the last tick; the next frame fires the
    // one-shot side effects, exactly once.
    for i in 0..1000u32 {
        let out = ctrl.frame(&fm);
        if out.fire {
            fires += 1;
            assert_eq!(0, i);
        }
    }
    assert_eq!(1, fires);
}

#[test]
fn finished_frames_blink_the_text() {
    let fm = plain_metrics();
    let mut ctrl = FrameController::new(0, false, 200, 100);
    let mut shown: u32 = 0;
    for _ in 0..120u32 {
        let out = ctrl.frame(&fm);
        assert_eq!("00:00:00.00", out.text.as_str());
        if out.draw_text {
            shown += 1;
        }
    }
    // A 1 Hz blink at 50% duty: visible half of the time.
    assert_eq!(60, shown);
}

#[test]
fn space_toggles_pause_and_dims_while_escape_quits() {
    let fm = plain_metrics();
    let mut ctrl = FrameController::new(10, false, 200, 100);
    let before = ctrl.frame(&fm);
    assert!(!before.paused);
    assert!(!ctrl.handle_event(InputEvent::SpaceKey));
    let remaining: i64 = ctrl.clock.remaining_ticks();
    let out = ctrl.frame(&fm);
    assert!(out.paused);
    assert_eq!(remaining, ctrl.clock.remaining_ticks());
    assert!(!ctrl.handle_event(InputEvent::SpaceKey));
    let out = ctrl.frame(&fm);
    assert!(!out.paused);
    assert_eq!(remaining - 1, ctrl.clock.remaining_ticks());
    assert!(!ctrl.handle_event(InputEvent::Other));
    assert!(ctrl.handle_event(InputEvent::EscapeKey));
    assert!(ctrl.handle_event(InputEvent::Quit));
}

#[test]
fn formatted_text_follows_the_clock() {
    let fm = plain_metrics();
    let mut ctrl = FrameController::new(2, false, 200, 100);
    let out = ctrl.frame(&fm);
    // After the first tick, 2 s minus one 60th: 1.983... floors to centis 98.
    assert_eq!("00:00:01.98", out.text.as_str());
}
