//! Display controller for the 8x8 LED dot-matrix driver.
//!
//! The controller owns the logical pixel state: one bitmask byte per row
//! plus a dirty flag.  Commands mutate the state; a repaint is owed exactly
//! while the dirty flag is set, and a repaint always rewrites all eight
//! rows.  The bus messages themselves are plain `(register, value)` byte
//! pairs that the application shell hands to the serial transport.

use vstd::prelude::*;

verus! {

/// A command for the display stage: wipe the panel or drive one cell.
#[derive(Clone, Copy, Debug, PartialEq, Eq, Structural)]
pub enum Max7219Action {
    ClearScreen,
    SetLedState { x: u8, y: u8, on: bool },
}

/// The 8x8 pixel state: row `y` is the bitmask `led_states[y]`, bit `x` of
/// which is the cell `(x, y)`; `update` marks that the device rows no
/// longer match `led_states` and a repaint is owed.
pub struct Max7219 {
    pub led_states: [u8; 8],
    pub update: bool,
}

/// Row bitmask `row` with bit `x` driven to `on`.
pub open spec fn spec_set_bit(row: u8, x: u8, on: bool) -> u8 {
    if on {
        row | (1u8 << x)
    } else {
        row & !(1u8 << x)
    }
}

/// Whether bit `x` of row bitmask `row` is lit.
pub open spec fn spec_bit_lit(row: u8, x: u8) -> bool {
    row & (1u8 << x) != 0
}

/// The rows after a `set_led(x, y, on)` call: out-of-range coordinates
/// leave the grid untouched, in-range ones drive the one addressed bit.
pub open spec fn spec_rows_after_set(rows: Seq<u8>, x: u8, y: u8, on: bool) -> Seq<u8> {
    if x < 8 && y < 8 {
        rows.update(y as int, spec_set_bit(rows[y as int], x, on))
    } else {
        rows
    }
}

/// The dirty flag after a `set_led(x, y, on)` call: it is newly set only
/// when an in-range bit actually changes value.
pub open spec fn spec_dirty_after_set(rows: Seq<u8>, update: bool, x: u8, y: u8, on: bool) -> bool {
    update || (x < 8 && y < 8 && spec_bit_lit(rows[y as int], x) != on)
}

/// No cell of the grid is lit.
pub open spec fn spec_none_lit(rows: Seq<u8>) -> bool {
    forall|xx: u8, yy: u8| xx < 8 && yy < 8 ==> !spec_bit_lit(rows[yy as int], xx)
}

/// Exactly the cell `(x, y)` is lit and no other.
pub open spec fn spec_only_lit(rows: Seq<u8>, x: u8, y: u8) -> bool {
    forall|xx: u8, yy: u8|
        xx < 8 && yy < 8 ==> (spec_bit_lit(rows[yy as int], xx) <==> (xx == x && yy == y))
}

/// The rows after one command is applied: `ClearScreen` blanks them all,
/// `SetLedState` drives the one addressed bit.
pub open spec fn spec_rows_after_action(rows: Seq<u8>, action: Max7219Action) -> Seq<u8> {
    match action {
        Max7219Action::ClearScreen => Seq::new(rows.len(), |i: int| 0u8),
        Max7219Action::SetLedState { x, y, on } => spec_rows_after_set(rows, x, y, on),
    }
}

/// The dirty flag after one command: a wipe always owes a repaint, a cell
/// write owes one only when the bit changed.
pub open spec fn spec_dirty_after_action(
    rows: Seq<u8>,
    update: bool,
    action: Max7219Action,
) -> bool {
    match action {
        Max7219Action::ClearScreen => true,
        Max7219Action::SetLedState { x, y, on } => spec_dirty_after_set(rows, update, x, y, on),
    }
}

/// The rows after a whole sequence of commands, applied in order.
pub open spec fn spec_rows_after_actions(rows: Seq<u8>, actions: Seq<Max7219Action>) -> Seq<u8>
    decreases actions.len(),
{
    if actions.len() == 0 {
        rows
    } else {
        spec_rows_after_action(
            spec_rows_after_actions(rows, actions.drop_last()),
            actions.last(),
        )
    }
}

/// The exact device bring-up sequence: power off, test mode off, minimum
/// intensity, raw decode mode, scan limit of all eight digits, every row
/// zeroed, power on.
pub open spec fn spec_init_sequence() -> Seq<(u8, u8)> {
    seq![
        (0x0Cu8, 0x00u8),
        (0x0Fu8, 0x00u8),
        (0x0Au8, 0x00u8),
        (0x09u8, 0x00u8),
        (0x0Bu8, 0x07u8),
        (1u8, 0u8),
        (2u8, 0u8),
        (3u8, 0u8),
        (4u8, 0u8),
        (5u8, 0u8),
        (6u8, 0u8),
        (7u8, 0u8),
        (8u8, 0u8),
        (0x0Cu8, 0x01u8),
    ]
}

proof fn lemma_single_bit(row: u8, x: u8)
    by (bit_vector)
    requires
        x < 8,
    ensures
        (1u8 << x) != 0,
        (row & (1u8 << x)) == 0 || (row & (1u8 << x)) == (1u8 << x),
        (row & (1u8 << x)) == (1u8 << x) ==> (row | (1u8 << x)) == row,
        (row & (1u8 << x)) == 0 ==> (row & !(1u8 << x)) == row,
{
}

/// Law: driving bit `x` of a row sets exactly that bit to `on` and leaves
/// every other bit as it was; driving it twice is the same as once.
pub proof fn lemma_bit_get_set(row: u8, x: u8, xx: u8, on: bool)
    by (bit_vector)
    requires
        x < 8,
        xx < 8,
    ensures
        xx == x ==> spec_bit_lit(spec_set_bit(row, x, on), xx) == on,
        xx != x ==> spec_bit_lit(spec_set_bit(row, x, on), xx) == spec_bit_lit(row, xx),
        spec_set_bit(spec_set_bit(row, x, on), x, on) == spec_set_bit(row, x, on),
{
}

/// Law: driving a cell to a value it was just driven to changes neither
/// the rows nor the dirty flag, so two `set_led` calls with the same
/// arguments set the dirty flag at most once between them.
pub proof fn lemma_set_led_idempotent(rows: Seq<u8>, x: u8, y: u8, on: bool)
    requires
        rows.len() == 8,
    ensures
        spec_rows_after_set(spec_rows_after_set(rows, x, y, on), x, y, on) == spec_rows_after_set(
            rows,
            x,
            y,
            on,
        ),
        forall|d: bool|
            spec_dirty_after_set(spec_rows_after_set(rows, x, y, on), d, x, y, on) == d,
{
    if x < 8 && y < 8 {
        let rows1 = spec_rows_after_set(rows, x, y, on);
        lemma_bit_get_set(rows[y as int], x, x, on);
        assert(spec_rows_after_set(rows1, x, y, on) =~= rows1);
    }
}

/// Law: when the cursor moves, turning the old cell off and then the new
/// cell on never shows two lit cells.  From a frame with exactly the old
/// cell lit, the intermediate frame is dark and the final frame has
/// exactly the new cell lit.
pub proof fn lemma_move_single_cell(rows: Seq<u8>, ox: u8, oy: u8, nx: u8, ny: u8)
    requires
        rows.len() == 8,
        ox < 8,
        oy < 8,
        nx < 8,
        ny < 8,
        spec_only_lit(rows, ox, oy),
    ensures
        spec_none_lit(spec_rows_after_set(rows, ox, oy, false)),
        spec_only_lit(
            spec_rows_after_set(spec_rows_after_set(rows, ox, oy, false), nx, ny, true),
            nx,
            ny,
        ),
{
    let r1 = spec_rows_after_set(rows, ox, oy, false);
    assert forall|xx: u8, yy: u8| xx < 8 && yy < 8 implies !spec_bit_lit(
        r1[yy as int],
        xx,
    ) by {
        if yy == oy {
            lemma_bit_get_set(rows[oy as int], ox, xx, false);
        }
    }
    let r2 = spec_rows_after_set(r1, nx, ny, true);
    assert forall|xx: u8, yy: u8| xx < 8 && yy < 8 implies (spec_bit_lit(r2[yy as int], xx)
        <==> (xx == nx && yy == ny)) by {
        if yy == ny {
            lemma_bit_get_set(r1[ny as int], nx, xx, true);
        }
    }
}

impl Max7219 {
    /// A fresh controller: all cells off, with the dirty flag set so that
    /// the first scheduling turn paints the blank frame.
    pub fn new() -> (r: Max7219)
        ensures
            r.led_states@.len() == 8,
            forall|i: int| 0 <= i < 8 ==> r.led_states@[i] == 0,
            r.update == true,
    {
        Max7219 { led_states: [0u8; 8], update: true }
    }

    /// Drive the cell `(x, y)` to `on`.  Out-of-range coordinates are
    /// silently ignored; the dirty flag is set only when the bit actually
    /// changes value.
    pub fn set_led(&mut self, x: u8, y: u8, on: bool)
        ensures
            final(self).led_states@ == spec_rows_after_set(old(self).led_states@, x, y, on),
            final(self).update == spec_dirty_after_set(
                old(self).led_states@,
                old(self).update,
                x,
                y,
                on,
            ),
            x >= 8 || y >= 8 ==> *final(self) == *old(self),
    {
        if x >= 8 || y >= 8 {
            return ;
        }
        let mask: u8 = 1u8 << x;
        let yi: usize = y as usize;
        let row: u8 = self.led_states[yi];
        proof {
            lemma_single_bit(row, x);
        }
        if on && (row & mask) == 0 {
            self.led_states[yi] = row | mask;
            self.update = true;
        } else if !on && (row & mask) == mask {
            self.led_states[yi] = row & !mask;
            self.update = true;
        } else {
            proof {
                assert(old(self).led_states@.update(y as int, spec_set_bit(row, x, on))
                    =~= old(self).led_states@);
            }
        }
    }

    /// Zero every row and mark the frame dirty.
    pub fn clear(&mut self)
        ensures
            final(self).led_states@.len() == 8,
            forall|i: int| 0 <= i < 8 ==> final(self).led_states@[i] == 0,
            final(self).update == true,
    {
        let mut i: usize = 0;
        while i < 8
            invariant
                i <= 8,
                self.led_states@.len() == 8,
                forall|j: int| 0 <= j < i ==> self.led_states@[j] == 0,
            decreases 8 - i,
        {
            self.led_states[i] = 0;
            i = i + 1;
        }
        self.update = true;
    }

    /// Apply one received command to the pixel state.
    pub fn apply_action(&mut self, action: Max7219Action)
        ensures
            final(self).led_states@ == spec_rows_after_action(old(self).led_states@, action),
            final(self).update == spec_dirty_after_action(
                old(self).led_states@,
                old(self).update,
                action,
            ),
    {
        match action {
            Max7219Action::ClearScreen => {
                self.clear();
                proof {
                    assert(self.led_states@ =~= Seq::new(
                        old(self).led_states@.len(),
                        |i: int| 0u8,
                    ));
                }
            },
            Max7219Action::SetLedState { x, y, on } => {
                self.set_led(x, y, on);
            },
        }
    }

    /// The eight bus messages of a full repaint: row `y` goes to device
    /// row address `y + 1` with the row bitmask as payload.
    pub fn frame_messages(&self) -> (r: Vec<(u8, u8)>)
        ensures
            r@.len() == 8,
            forall|i: int|
                0 <= i < 8 ==> (#[trigger] r@[i]).0 == i + 1 && r@[i].1 == self.led_states@[i],
    {
        let mut r: Vec<(u8, u8)> = Vec::new();
        let mut addr: u8 = 0;
        while addr < 8
            invariant
                addr <= 8,
                r@.len() == addr,
                forall|i: int|
                    0 <= i < addr ==> (#[trigger] r@[i]).0 == i + 1 && r@[i].1
                        == self.led_states@[i],
            decreases 8 - addr,
        {
            let msg: (u8, u8) = (addr + 1, self.led_states[addr as usize]);
            r.push(msg);
            addr = addr + 1;
        }
        r
    }

    /// One scheduling turn's repaint decision: if the frame is dirty, hand
    /// out the full eight-row repaint and clear the dirty flag; otherwise
    /// report that nothing is owed (the caller then waits for a command).
    pub fn take_frame(&mut self) -> (r: Option<Vec<(u8, u8)>>)
        ensures
            final(self).led_states@ == old(self).led_states@,
            final(self).update == false,
            old(self).update ==> (r matches Some(m) && m@.len() == 8 && forall|i: int|
                0 <= i < 8 ==> (#[trigger] m@[i]).0 == i + 1
                    && m@[i].1 == old(self).led_states@[i]),
            !old(self).update ==> r is None,
    {
        if self.update {
            self.update = false;
            Some(self.frame_messages())
        } else {
            None
        }
    }

    /// The exact fourteen-message bring-up sequence the device needs, in
    /// order: power off, test mode off, minimum intensity, raw decode
    /// mode, scan limit of eight digits, eight zeroed rows, power on.
    pub fn init_messages() -> (r: Vec<(u8, u8)>)
        ensures
            r@ == spec_init_sequence(),
    {
        let mut r: Vec<(u8, u8)> = Vec::new();
        r.push((0x0Cu8, 0x00u8));
        r.push((0x0Fu8, 0x00u8));
        r.push((0x0Au8, 0x00u8));
        r.push((0x09u8, 0x00u8));
        r.push((0x0Bu8, 0x07u8));
        let mut addr: u8 = 1;
        while addr < 9
            invariant
                1 <= addr <= 9,
                r@.len() == 4 + addr,
                forall|i: int| 0 <= i < 5 ==> r@[i] == spec_init_sequence()[i],
                forall|i: int| 5 <= i < r@.len() ==> r@[i].0 == i - 4 && r@[i].1 == 0,
            decreases 9 - addr,
        {
            let msg: (u8, u8) = (addr, 0u8);
            r.push(msg);
            addr = addr + 1;
        }
        r.push((0x0Cu8, 0x01u8));
        proof {
            assert(r@ =~= spec_init_sequence());
        }
        r
    }

    /// The sixteen messages of one demo cycle: walk a single lit row bit
    /// down the panel, then blank the rows again.
    pub fn demo_messages() -> (r: Vec<(u8, u8)>)
        ensures
            r@.len() == 16,
            forall|i: int| 0 <= i < 8 ==> r@[i].0 == i + 1 && r@[i].1 == (1u8 << (i as u8)),
            forall|i: int| 8 <= i < 16 ==> r@[i].0 == i - 7 && r@[i].1 == 0,
    {
        let mut r: Vec<(u8, u8)> = Vec::new();
        let mut addr: u8 = 1;
        while addr < 9
            invariant
                1 <= addr <= 9,
                r@.len() == addr - 1,
                forall|i: int| 0 <= i < r@.len() ==> r@[i].0 == i + 1 && r@[i].1 == (1u8 << (
                i as u8)),
            decreases 9 - addr,
        {
            let msg: (u8, u8) = (addr, 1u8 << (addr - 1));
            r.push(msg);
            addr = addr + 1;
        }
        let mut addr2: u8 = 1;
        while addr2 < 9
            invariant
                1 <= addr2 <= 9,
                r@.len() == 8 + addr2 - 1,
                forall|i: int| 0 <= i < 8 ==> r@[i].0 == i + 1 && r@[i].1 == (1u8 << (i as u8)),
                forall|i: int| 8 <= i < r@.len() ==> r@[i].0 == i - 7 && r@[i].1 == 0,
            decreases 9 - addr2,
        {
            let msg: (u8, u8) = (addr2, 0u8);
            r.push(msg);
            addr2 = addr2 + 1;
        }
        r
    }
}

} // verus!
