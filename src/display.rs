//! The two screen buffers: the simulation draws into one while the other is
//! shown.
use crate::grid::{Grid, SCREEN_LEN};
use vstd::prelude::*;

verus! {

/// Length of the status row below the map.
pub const TEXT_LEN: usize = 40;

/// The screen code of a blank character.
pub const BLANK: u8 = 0x20;

/// One of the two screen buffers.
#[derive(PartialEq, Eq, Structural, Clone, Copy, Debug)]
pub enum ScreenBuffer {
    Screen1,
    Screen2,
}

/// The buffer that the simulation draws into, given the flag that the
/// interrupt keeps in `FrameSync::draw_to_screen_2`.
pub open spec fn current_spec(draw_to_screen_2: bool) -> ScreenBuffer {
    if draw_to_screen_2 {
        ScreenBuffer::Screen2
    } else {
        ScreenBuffer::Screen1
    }
}

/// The buffer that is shown.
pub open spec fn displayed_spec(draw_to_screen_2: bool) -> ScreenBuffer {
    if draw_to_screen_2 {
        ScreenBuffer::Screen1
    } else {
        ScreenBuffer::Screen2
    }
}

/// The buffer that the simulation draws into: never the one shown.
pub fn current(draw_to_screen_2: bool) -> (r: ScreenBuffer)
    ensures
        r == current_spec(draw_to_screen_2),
        r != displayed_spec(draw_to_screen_2),
{
    if draw_to_screen_2 {
        ScreenBuffer::Screen2
    } else {
        ScreenBuffer::Screen1
    }
}

/// The buffer that is shown.
pub fn displayed(draw_to_screen_2: bool) -> (r: ScreenBuffer)
    ensures
        r == displayed_spec(draw_to_screen_2),
{
    if draw_to_screen_2 {
        ScreenBuffer::Screen1
    } else {
        ScreenBuffer::Screen2
    }
}

/// Fills a map buffer with empty tiles.
pub fn clear(screen: &mut [u8; 960])
    ensures
        final(screen)@ == Seq::new(960, |i: int| 0u8),
{
    let mut i: usize = 0;
    while i < SCREEN_LEN
        invariant
            0 <= i <= 960,
            forall|j: int| 0 <= j < i ==> screen@[j] == 0u8,
        decreases 960 - i,
    {
        screen[i] = 0;
        i = i + 1;
    }
    assert(screen@ =~= Seq::new(960, |i: int| 0u8));
}

/// Fills a status row with blanks.
pub fn clear_text(text_screen: &mut [u8; 40])
    ensures
        final(text_screen)@ == Seq::new(40, |i: int| BLANK),
{
    let mut i: usize = 0;
    while i < TEXT_LEN
        invariant
            0 <= i <= 40,
            forall|j: int| 0 <= j < i ==> text_screen@[j] == BLANK,
        decreases 40 - i,
    {
        text_screen[i] = BLANK;
        i = i + 1;
    }
    assert(text_screen@ =~= Seq::new(40, |i: int| BLANK));
}

/// Copies all rows of the grid but the last into a map buffer.
pub fn copy_screen(grid: &Grid, screen: &mut [u8; 960])
    ensures
        final(screen)@ == grid@.subrange(0, 960),
{
    let mut i: usize = 0;
    while i < SCREEN_LEN
        invariant
            0 <= i <= 960,
            forall|j: int| 0 <= j < i ==> screen@[j] == grid@[j],
        decreases 960 - i,
    {
        screen[i] = grid.tiles[i];
        i = i + 1;
    }
    assert(screen@ =~= grid@.subrange(0, 960));
}

} // verus!
