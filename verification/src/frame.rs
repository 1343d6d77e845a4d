//! The per-frame controller: it owns the clock, the layout, the completion
//! signal and the viewport, consumes one input event at a time, and computes
//! everything one frame draws.  The shell around it only polls events, paces
//! the frame rate, performs the draw calls and delivers the one-shot
//! completion side effects.

use crate::clock::TimerClock;
use crate::layout::BounceLayout;
use crate::layout::DisplayRect;
use crate::layout::FontMetrics;
use crate::layout::Velocity;
use crate::layout::Viewport;
use crate::signal::CompletionSignaler;
use vstd::prelude::*;

verus! {

/// One input event, as the shell reports it.
#[derive(Clone, Copy, Debug, PartialEq, Eq, Structural)]
pub enum InputEvent {
    Quit,
    EscapeKey,
    SpaceKey,
    Resized(i32, i32),
    Other,
}

/// Everything one frame asks the shell to do: the one-shot completion side
/// effects, and the render call.
pub struct FrameOutput {
    /// Perform the one-time flash and completion notification now.
    pub fire: bool,
    /// The formatted remaining time.
    pub text: String,
    /// Where to draw the text.
    pub rect: DisplayRect,
    /// Draw dimmed (the clock is paused) rather than at full brightness.
    pub paused: bool,
    /// Whether to draw the text at all this frame (active, or the visible
    /// half of the finished blink).
    pub draw_text: bool,
}

/// The frame-driven core state.
pub struct FrameController {
    pub clock: TimerClock,
    pub layout: BounceLayout,
    pub signaler: CompletionSignaler,
    pub viewport: Viewport,
}

impl FrameController {
    pub open spec fn wf(self) -> bool {
        &&& self.layout.wf()
        &&& self.viewport.wf()
    }

    /// A controller at startup: a fresh clock over `seconds`, an armed
    /// signaler, and the layout variant picked by `bounce`.
    pub fn new(seconds: u64, bounce: bool, width: i32, height: i32) -> (c: FrameController)
        requires
            seconds <= crate::clock::MAX_START_SECONDS,
            0 <= width <= crate::layout::COORD_BOUND,
            0 <= height <= crate::layout::COORD_BOUND,
        ensures
            c.wf(),
            c.clock.remaining == seconds * crate::clock::TICKS_PER_SEC,
            !c.clock.paused,
            !c.signaler.fired,
            c.signaler.blink_ticks == 0,
            c.viewport == (Viewport { width, height }),
            c.layout.x == 0 && c.layout.y == 0,
            bounce ==> c.layout.velocity == Some(
                Velocity { x: crate::layout::VELOCITY_SPEED, y: crate::layout::VELOCITY_SPEED },
            ),
            !bounce ==> c.layout.velocity is None,
    {
        FrameController {
            clock: TimerClock::new(seconds),
            layout: if bounce {
                BounceLayout::new_bounce()
            } else {
                BounceLayout::new_static()
            },
            signaler: CompletionSignaler::new(),
            viewport: Viewport { width, height },
        }
    }

    /// Consume one polled input event.  Quit and escape end the loop; space
    /// toggles the pause (a no-op once finished); a resize updates the
    /// viewport for the very next frame; anything else is ignored.
    pub fn handle_event(&mut self, event: InputEvent) -> (quit: bool)
        requires
            old(self).wf(),
            event matches InputEvent::Resized(w, h) ==> 0 <= w <= crate::layout::COORD_BOUND && 0
                <= h <= crate::layout::COORD_BOUND,
        ensures
            final(self).wf(),
            quit == (event is Quit || event is EscapeKey),
            event is Quit || event is EscapeKey || event is Other ==> *final(self) == *old(self),
            event is SpaceKey ==> {
                &&& final(self).clock == old(self).clock.spec_toggled()
                &&& final(self).layout == old(self).layout
                &&& final(self).signaler == old(self).signaler
                &&& final(self).viewport == old(self).viewport
            },
            event matches InputEvent::Resized(w, h) ==> {
                &&& final(self).viewport == (Viewport { width: w, height: h })
                &&& final(self).clock == old(self).clock
                &&& final(self).layout == old(self).layout
                &&& final(self).signaler == old(self).signaler
            },
    {
        match event {
            InputEvent::Quit => true,
            InputEvent::EscapeKey => true,
            InputEvent::SpaceKey => {
                self.clock.toggle_pause();
                false
            },
            InputEvent::Resized(w, h) => {
                self.viewport = Viewport { width: w, height: h };
                false
            },
            InputEvent::Other => false,
        }
    }

    /// Advance one fixed frame step and compute the render call.
    ///
    /// In order: the completion signal is evaluated against the activity at
    /// the top of the frame (firing its one-shot on the first inactive
    /// frame, and accumulating the blink phase on every inactive frame), the
    /// clock ticks one step, the layout advances against the current
    /// viewport, and the remaining time is formatted with its display clamp.
    pub fn frame(&mut self, fm: &FontMetrics) -> (out: FrameOutput)
        requires
            old(self).wf(),
            fm.wf(),
        ensures
            final(self).wf(),
            final(self).viewport == old(self).viewport,
            final(self).clock.paused == old(self).clock.paused,
            final(self).clock.remaining == TimerClock::spec_tick_remaining(
                old(self).clock.remaining as int,
                old(self).clock.paused,
                1,
            ),
            final(self).signaler == old(self).signaler.spec_evaluated(
                old(self).clock.spec_is_active(),
                1,
            ),
            final(self).layout == old(self).layout.spec_updated(old(self).viewport, *fm),
            out.fire == old(self).signaler.spec_fires(old(self).clock.spec_is_active()),
            out.text@ == crate::timefmt::spec_format(final(self).clock.remaining as int),
            out.rect.x == final(self).layout.x && out.rect.y == final(self).layout.y
                && out.rect.width == final(self).layout.width && out.rect.height
                == final(self).layout.height,
            out.paused == old(self).clock.paused,
            out.draw_text == (old(self).clock.spec_is_active() || final(self).signaler.blink_ticks
                % crate::signal::BLINK_PERIOD < crate::signal::BLINK_VISIBLE),
    {
        let active = self.clock.is_active();
        let fire = self.signaler.evaluate(active, 1);
        let paused = self.clock.is_paused();
        self.clock.tick(1);
        let viewport = self.viewport;
        self.layout.update(&viewport, fm);
        let text = crate::timefmt::format_remaining(self.clock.remaining_ticks());
        let visible = self.signaler.visible();
        let rect = self.layout.rect();
        FrameOutput { fire, text, rect, paused, draw_text: active || visible }
    }
}

} // verus!
