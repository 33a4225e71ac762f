use tileflow::display::{clear, clear_text, copy_screen, current, displayed, ScreenBuffer};
use tileflow::frame::{frame_time, FrameSync, IrqAction};
use tileflow::grid::Grid;
use tileflow::text::{petscii_to_screen_code, write_status, MapTextWriter};

/// Runs frame-end interrupts (each followed by the status-row one) until the
/// one that wraps the phase; returns how many frames that took.
fn run_to_wrap(s: &mut FrameSync) -> u32 {
    let mut frames = 0;
    loop {
        let before = s.draw_to_screen_2;
        let a = s.on_interrupt();
        assert_eq!(a, IrqAction::Frame);
        frames += 1;
        assert_eq!(s.on_interrupt(), IrqAction::StatusRow);
        assert!(s.animation_counter < 4);
        if s.draw_to_screen_2 != before {
            return frames;
        }
    }
}

#[test]
fn interrupts_alternate_frame_and_status_row() {
    let mut s = FrameSync::new();
    assert_eq!(s.on_interrupt(), IrqAction::Frame);
    assert_eq!(s.frame_counter, 1);
    assert_eq!(s.on_interrupt(), IrqAction::StatusRow);
    assert_eq!(s.frame_counter, 1);
    assert_eq!(s.on_interrupt(), IrqAction::Frame);
    assert_eq!(s.frame_counter, 2);
}

#[test]
fn phase_advances_every_five_frames() {
    let mut s = FrameSync::new();
    let mut phases = Vec::new();
    for _ in 0..16 {
        s.on_interrupt();
        s.on_interrupt();
        phases.push(s.animation_counter);
    }
    assert_eq!(phases, vec![0, 0, 0, 0, 0, 1, 1, 1, 1, 1, 2, 2, 2, 2, 2, 3]);
}

#[test]
fn granted_step_then_wrap_swaps_buffer_once() {
    let mut s = FrameSync::new();
    assert!(s.frame_granted());
    s.finish_frame();
    assert!(!s.frame_granted());
    let frames = run_to_wrap(&mut s);
    assert_eq!(frames, 21);
    assert!(s.draw_to_screen_2);
    assert_eq!(s.animation_counter, 0);
    assert!(s.frame_granted());
}

#[test]
fn finishing_twice_does_not_double_toggle() {
    let mut s = FrameSync::new();
    s.finish_frame();
    run_to_wrap(&mut s);
    let draw = s.draw_to_screen_2;
    let phase = s.animation_counter;
    s.finish_frame();
    s.finish_frame();
    assert!(s.new_frame);
    assert_eq!(s.draw_to_screen_2, draw);
    assert_eq!(s.animation_counter, phase);
    assert_eq!(s.on_interrupt(), IrqAction::Frame);
    assert_eq!(s.draw_to_screen_2, draw);
    assert!(s.new_frame);
    assert!(s.animation_counter < 4);
    assert_eq!(s.on_interrupt(), IrqAction::StatusRow);
    let frames = run_to_wrap(&mut s);
    assert_eq!(frames, 19);
    assert_eq!(s.draw_to_screen_2, !draw);
}

#[test]
fn missed_deadline_halts_for_good() {
    let mut s = FrameSync::new();
    let mut last = IrqAction::Frame;
    for _ in 0..60 {
        last = s.on_interrupt();
        if last == IrqAction::Halt {
            break;
        }
    }
    assert_eq!(last, IrqAction::Halt);
    assert!(s.halted);
    let frozen = s;
    s.finish_frame();
    let mut t = frozen;
    assert_eq!(t.on_interrupt(), IrqAction::Halt);
    assert_eq!(t, frozen);
}

#[test]
fn frame_time_values() {
    assert_eq!(frame_time(3, 10), 7);
    assert_eq!(frame_time(10, 10), 0);
    assert_eq!(frame_time(250, 4), 9);
}

#[test]
fn draws_into_the_buffer_not_shown() {
    let mut s = FrameSync::new();
    assert_eq!(current(s.draw_to_screen_2), ScreenBuffer::Screen1);
    assert_eq!(displayed(s.draw_to_screen_2), ScreenBuffer::Screen2);
    s.finish_frame();
    run_to_wrap(&mut s);
    assert_eq!(current(s.draw_to_screen_2), ScreenBuffer::Screen2);
    assert_eq!(displayed(s.draw_to_screen_2), ScreenBuffer::Screen1);
}

#[test]
fn copy_screen_takes_all_rows_but_the_last() {
    let mut g = Grid::new();
    g.write_map(5, 5, 0x13);
    g.write_map(3, 23, 2);
    g.write_map(3, 24, 35);
    let mut screen = [7u8; 960];
    copy_screen(&g, &mut screen);
    assert_eq!(screen[5 * 40 + 5], 0x13);
    assert_eq!(screen[23 * 40 + 3], 2);
    assert_eq!(screen[0], 0);
    assert_eq!(&screen[..], &g.tiles[..960]);
}

#[test]
fn clear_fills_buffers() {
    let mut screen = [7u8; 960];
    clear(&mut screen);
    assert!(screen.iter().all(|&b| b == 0));
    let mut text = [7u8; 40];
    clear_text(&mut text);
    assert!(text.iter().all(|&b| b == b' '));
}

#[test]
fn screen_codes_of_petscii() {
    assert_eq!(petscii_to_screen_code(b'0'), 0x30);
    assert_eq!(petscii_to_screen_code(b' '), 0x20);
    assert_eq!(petscii_to_screen_code(67), 3);
    assert_eq!(petscii_to_screen_code(1), 129);
    assert_eq!(petscii_to_screen_code(100), 68);
    assert_eq!(petscii_to_screen_code(130), 194);
    assert_eq!(petscii_to_screen_code(170), 106);
    assert_eq!(petscii_to_screen_code(200), 72);
    assert_eq!(petscii_to_screen_code(255), 94);
}

#[test]
fn writer_stops_at_the_end_of_the_row() {
    let mut text = [b' '; 40];
    let mut w = MapTextWriter::new();
    w.write_str(&mut text, b"AB");
    assert_eq!(&text[..3], &[1, 2, b' ']);
    for _ in 0..50 {
        w.write_byte(&mut text, b'C');
    }
    assert_eq!(text[39], 3);
    assert_eq!(text[0], 1);
}

#[test]
fn status_row_shows_time_and_counts() {
    let mut text = [9u8; 40];
    write_status(&mut text, 12, 64, 3);
    assert_eq!(&text[..9], b"12 64 3  ");
    assert!(text[9..].iter().all(|&b| b == b' '));
    write_status(&mut text, 0, 0, 0);
    assert_eq!(&text[..8], b"0 0 0   ");
}
