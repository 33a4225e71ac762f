//! The status row: a cursor that writes PETSCII text as screen codes, and
//! the diagnostic line that the main loop shows after each step.
use crate::display::{clear_text, BLANK, TEXT_LEN};
use vstd::prelude::*;

verus! {

/// The screen code that shows the PETSCII character `c`.
pub open spec fn screen_code_spec(c: u8) -> u8 {
    if c <= 31 {
        (c + 128) as u8
    } else if c <= 63 {
        c
    } else if c <= 95 {
        (c - 64) as u8
    } else if c <= 127 {
        (c - 32) as u8
    } else if c <= 159 {
        (c + 64) as u8
    } else if c <= 191 {
        (c - 64) as u8
    } else if c <= 254 {
        (c - 128) as u8
    } else {
        94
    }
}

/// The row `text` after the PETSCII bytes `s` were written from column
/// `cursor` on; what falls past the end of the row is dropped.
pub open spec fn render(text: Seq<u8>, cursor: int, s: Seq<u8>) -> Seq<u8> {
    Seq::new(
        text.len(),
        |p: int|
            if cursor <= p < cursor + s.len() {
                screen_code_spec(s[p - cursor])
            } else {
                text[p]
            },
    )
}

/// The decimal digits of `n`, as PETSCII bytes.
pub open spec fn decimal(n: nat) -> Seq<u8>
    decreases n,
{
    if n < 10 {
        seq![(48 + n) as u8]
    } else {
        decimal(n / 10).push((48 + n % 10) as u8)
    }
}

/// The diagnostic line: the step time, the number of tokens and the number
/// of spawners, in decimal, apart by one blank.
pub open spec fn status_line(time: nat, entities: nat, spawners: nat) -> Seq<u8> {
    decimal(time) + seq![32u8] + decimal(entities) + seq![32u8] + decimal(spawners)
}

/// The screen code that shows the PETSCII character `c`.
pub fn petscii_to_screen_code(c: u8) -> (r: u8)
    ensures
        r == screen_code_spec(c),
{
    if c <= 31 {
        c + 128
    } else if c <= 63 {
        c
    } else if c <= 95 {
        c - 64
    } else if c <= 127 {
        c - 32
    } else if c <= 159 {
        c + 64
    } else if c <= 191 {
        c - 64
    } else if c <= 254 {
        c - 128
    } else {
        94
    }
}

/// Writes text into a status row, left to right, dropping what does not
/// fit.
pub struct MapTextWriter {
    cursor: u8,
}

impl MapTextWriter {
    /// The column that the next byte goes to.
    pub closed spec fn position(&self) -> nat {
        self.cursor as nat
    }

    pub fn new() -> (r: Self)
        ensures
            r.position() == 0,
    {
        Self { cursor: 0 }
    }

    pub fn write_byte(&mut self, text: &mut [u8; 40], c: u8)
        requires
            old(self).position() <= 40,
        ensures
            final(self).position() == if old(self).position() < 40 {
                old(self).position() + 1
            } else {
                40
            },
            final(text)@ == render(old(text)@, old(self).position() as int, seq![c]),
    {
        if self.cursor as usize >= TEXT_LEN {
            assert(text@ =~= render(old(text)@, old(self).position() as int, seq![c]));
            return;
        }
        let code = petscii_to_screen_code(c);
        text[self.cursor as usize] = code;
        self.cursor = self.cursor + 1;
        assert(text@ =~= render(old(text)@, old(self).position() as int, seq![c]));
    }

    pub fn write_str(&mut self, text: &mut [u8; 40], s: &[u8])
        requires
            old(self).position() <= 40,
        ensures
            final(self).position() == if old(self).position() + s@.len() < 40 {
                old(self).position() + s@.len()
            } else {
                40
            },
            final(text)@ == render(old(text)@, old(self).position() as int, s@),
    {
        let ghost start = self.position() as int;
        let mut k: usize = 0;
        while k < s.len()
            invariant
                0 <= k <= s@.len(),
                start == old(self).position(),
                self.position() == if start + k < 40 {
                    start + k
                } else {
                    40
                },
                text@ == render(old(text)@, start, s@.subrange(0, k as int)),
            decreases s@.len() - k,
        {
            self.write_byte(text, s[k]);
            assert(text@ =~= render(old(text)@, start, s@.subrange(0, k + 1)));
            k = k + 1;
        }
        assert(s@.subrange(0, s@.len() as int) =~= s@);
    }
}

/// Appends the decimal digits of `n` to `out`.
fn push_decimal(out: &mut Vec<u8>, n: u16)
    ensures
        final(out)@ == old(out)@ + decimal(n as nat),
    decreases n,
{
    if n >= 10 {
        push_decimal(out, n / 10);
    }
    out.push(48 + (n % 10) as u8);
    assert(final(out)@ =~= old(out)@ + decimal(n as nat));
}

/// Shows the step time and the table sizes on a blank status row.
pub fn write_status(text: &mut [u8; 40], time: u16, entity_count: u8, spawner_count: u8)
    ensures
        final(text)@ == render(
            Seq::new(40, |i: int| BLANK),
            0,
            status_line(time as nat, entity_count as nat, spawner_count as nat),
        ),
{
    let mut line: Vec<u8> = Vec::new();
    push_decimal(&mut line, time);
    line.push(BLANK);
    push_decimal(&mut line, entity_count as u16);
    line.push(BLANK);
    push_decimal(&mut line, spawner_count as u16);
    assert(line@ =~= status_line(time as nat, entity_count as nat, spawner_count as nat));
    clear_text(text);
    let mut writer = MapTextWriter::new();
    writer.write_str(text, line.as_slice());
}

} // verus!
