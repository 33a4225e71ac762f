//! The handshake between the periodic display interrupt and the main loop.
//!
//! The interrupt fires twice per displayed frame: once at the end of the
//! frame, and once more where the status row starts. Every five frames it
//! advances the animation phase; when the phase wraps, the main loop must
//! have finished its step, or the machine halts. Otherwise the interrupt
//! clears the done flag, which lets the main loop run its next step, and
//! swaps the buffer being shown.
use vstd::prelude::*;

verus! {

/// Frames per animation phase.
pub const FRAMES_PER_PHASE: u8 = 5;

/// Number of animation phases in one simulation period.
pub const PHASE_COUNT: u8 = 4;

/// What the interrupt handler must do after an interrupt.
#[derive(PartialEq, Eq, Structural, Clone, Copy, Debug)]
pub enum IrqAction {
    /// The status-row interrupt: re-arm for the end of the frame.
    StatusRow,
    /// The end of a frame: select the banks for the current animation phase
    /// and the buffer being shown, and re-arm for the status row.
    Frame,
    /// The main loop missed its deadline: signal the failure and stop.
    Halt,
}

/// The state shared between the interrupt and the main loop.
#[derive(PartialEq, Eq, Structural, Clone, Copy, Debug)]
pub struct FrameSync {
    /// Set by the main loop when its step is done; cleared by the interrupt
    /// when it grants the next step.
    pub new_frame: bool,
    /// Frames since start, wrapping.
    pub frame_counter: u8,
    /// The animation phase, `0..4`.
    pub animation_counter: u8,
    /// Whether the main loop draws to the second buffer (the first one is
    /// then shown).
    pub draw_to_screen_2: bool,
    /// Frames since the animation phase last advanced.
    pub frame_count: u8,
    /// Whether the next interrupt is the status-row one.
    pub at_status_row: bool,
    /// Whether the deadline was missed; nothing happens after that.
    pub halted: bool,
}

/// Whether the next frame-end interrupt of `s` wraps the animation phase.
pub open spec fn wraps(s: FrameSync) -> bool {
    s.frame_count == 5 && s.animation_counter == 3
}

/// The state after one interrupt, and what the handler must do.
pub open spec fn irq_next(s: FrameSync) -> (FrameSync, IrqAction) {
    if s.halted {
        (s, IrqAction::Halt)
    } else if s.at_status_row {
        (FrameSync { at_status_row: false, ..s }, IrqAction::StatusRow)
    } else if wraps(s) && !s.new_frame {
        (FrameSync { halted: true, ..s }, IrqAction::Halt)
    } else {
        let advance = s.frame_count == 5;
        (
            FrameSync {
                new_frame: if wraps(s) {
                    false
                } else {
                    s.new_frame
                },
                frame_counter: (if s.frame_counter == 255 {
                    0
                } else {
                    s.frame_counter + 1
                }) as u8,
                animation_counter: (if !advance {
                    s.animation_counter as int
                } else if s.animation_counter == 3 {
                    0
                } else {
                    s.animation_counter + 1
                }) as u8,
                draw_to_screen_2: if wraps(s) {
                    !s.draw_to_screen_2
                } else {
                    s.draw_to_screen_2
                },
                frame_count: (if advance {
                    1
                } else {
                    s.frame_count + 1
                }) as u8,
                at_status_row: true,
                halted: false,
            },
            IrqAction::Frame,
        )
    }
}

/// The state after the main loop signalled that its step is done.
pub open spec fn finish_spec(s: FrameSync) -> FrameSync {
    FrameSync { new_frame: true, ..s }
}

impl FrameSync {
    pub open spec fn wf(&self) -> bool {
        &&& self.animation_counter < 4
        &&& self.frame_count <= 5
    }

    /// The state at start-up: the main loop may run its first step at once.
    pub fn new() -> (r: FrameSync)
        ensures
            r.wf(),
            !r.new_frame,
            !r.halted,
            !r.at_status_row,
            r.frame_counter == 0,
            r.animation_counter == 0,
            r.frame_count == 0,
            !r.draw_to_screen_2,
    {
        FrameSync {
            new_frame: false,
            frame_counter: 0,
            animation_counter: 0,
            draw_to_screen_2: false,
            frame_count: 0,
            at_status_row: false,
            halted: false,
        }
    }

    /// Handles one interrupt.
    pub fn on_interrupt(&mut self) -> (r: IrqAction)
        requires
            old(self).wf(),
        ensures
            final(self).wf(),
            (*final(self), r) == irq_next(*old(self)),
    {
        if self.halted {
            return IrqAction::Halt;
        }
        if self.at_status_row {
            self.at_status_row = false;
            return IrqAction::StatusRow;
        }
        let wrap = self.frame_count == FRAMES_PER_PHASE && self.animation_counter + 1 == PHASE_COUNT;
        if wrap && !self.new_frame {
            self.halted = true;
            return IrqAction::Halt;
        }
        self.at_status_row = true;
        if self.frame_count == FRAMES_PER_PHASE {
            self.frame_count = 0;
            let animation_counter = self.animation_counter + 1;
            self.animation_counter = if animation_counter == PHASE_COUNT {
                0
            } else {
                animation_counter
            };
            if animation_counter == PHASE_COUNT {
                self.new_frame = false;
                self.draw_to_screen_2 = !self.draw_to_screen_2;
            }
        }
        self.frame_count = self.frame_count + 1;
        self.frame_counter = self.frame_counter.wrapping_add(1);
        IrqAction::Frame
    }

    /// Whether the main loop may run its next step: the interrupt has
    /// cleared the done flag.
    pub fn frame_granted(&self) -> (r: bool)
        ensures
            r == !self.new_frame,
    {
        !self.new_frame
    }

    /// Signals that the main loop's step is done.
    pub fn finish_frame(&mut self)
        ensures
            *final(self) == finish_spec(*old(self)),
    {
        self.new_frame = true;
    }
}

/// The ticks between two readings of the frame counter, as the status row
/// shows them.
pub fn frame_time(start: u8, end: u8) -> (r: u16)
    ensures
        r == if end < start {
            end + 255 - start
        } else {
            end - start
        },
{
    let start = start as u16;
    let mut end = end as u16;
    if end < start {
        end = end + 255;
    }
    end - start
}

/// The done flag is cleared only by a frame-end interrupt that wraps the
/// animation phase, which also swaps the buffer shown and restarts the
/// phase at zero; the phase stays in `0..4`. Once the flag was cleared, the
/// next interrupt swaps nothing, whether or not the main loop signalled
/// done in between, and signalling done twice is the same as once.
pub proof fn lemma_single_grant_per_wrap(s: FrameSync, done: bool)
    requires
        s.wf(),
    ensures
        irq_next(s).0.wf(),
        (s.new_frame && !irq_next(s).0.new_frame) <==> (irq_next(s).0.draw_to_screen_2
            != s.draw_to_screen_2),
        irq_next(s).0.draw_to_screen_2 != s.draw_to_screen_2 ==> {
            &&& irq_next(s).1 == IrqAction::Frame
            &&& wraps(s)
            &&& irq_next(s).0.animation_counter == 0
            &&& irq_next(FrameSync { new_frame: done, ..irq_next(s).0 }).0.draw_to_screen_2
                == irq_next(s).0.draw_to_screen_2
            &&& irq_next(FrameSync { new_frame: done, ..irq_next(s).0 }).0.animation_counter
                == 0
        },
        finish_spec(finish_spec(s)) == finish_spec(s),
        finish_spec(s).draw_to_screen_2 == s.draw_to_screen_2,
        finish_spec(s).animation_counter == s.animation_counter,
{
}

/// A missed deadline halts for good: the interrupt that finds the done flag
/// still clear at a phase wrap halts, and every interrupt after it halts
/// too, changing nothing.
pub proof fn lemma_deadline_halts(s: FrameSync)
    requires
        s.wf(),
    ensures
        !s.halted && !s.at_status_row && wraps(s) && !s.new_frame ==> irq_next(s).1
            == IrqAction::Halt && irq_next(s).0.halted,
        s.halted ==> irq_next(s) == (s, IrqAction::Halt),
{
}

} // verus!
