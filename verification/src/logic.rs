//! Motion controller: a dead-zone/threshold state machine that moves the
//! single cursor cell over the 8x8 grid and emits minimal diff commands.
//!
//! Tilt angles arrive in tenths of a degree.  Each axis is scaled down by
//! `ANGLE_DIV` and compared against the `MIN_ANGLE_TENTH_DEG` dead-zone
//! threshold; since the values are integers, `angle / ANGLE_DIV >
//! MIN_ANGLE_TENTH_DEG` is tested exactly as `angle > ANGLE_DIV *
//! MIN_ANGLE_TENTH_DEG`.  A transition is accepted at most once per
//! `DEBOUNCE_MS` milliseconds; when the position changes, exactly two
//! commands go out, old cell off strictly before new cell on.

use vstd::prelude::*;

use crate::max7219::{
    lemma_move_single_cell, spec_none_lit, spec_only_lit, spec_rows_after_action,
    spec_rows_after_actions, Max7219Action,
};
use crate::mpu6050::Mpu6050ObserverData;

verus! {

/// Dead-zone threshold in tenths of a degree, applied after scaling.
pub const MIN_ANGLE_TENTH_DEG: i16 = 50;

/// Dead-zone threshold for the raw acceleration-difference variant, in
/// tenths of a g.
pub const MIN_DIFF_TENTH_G: i16 = 2;

/// Scale divisor applied to each tilt angle before the threshold test.
pub const ANGLE_DIV: i16 = 4;

/// Minimum elapsed milliseconds between two accepted transitions.
pub const DEBOUNCE_MS: u64 = 50;

/// The single cursor cell; both coordinates live on the 8x8 grid.
#[derive(Clone, Copy, Debug, PartialEq, Eq, Structural)]
pub struct GridPosition {
    pub x: u8,
    pub y: u8,
}

/// Motion controller state: the current and the previously drawn cursor
/// cell, plus the time of the last accepted transition.
pub struct Logic {
    pub pos: GridPosition,
    pub old_pos: GridPosition,
    pub last_accept_ms: u64,
}

/// One axis of the dead-zone state machine: a signal above `threshold`
/// steps the coordinate up (clamped at 7), one below `-threshold` steps
/// it down (clamped at 0), and the dead zone in between holds it.
pub open spec fn spec_axis_step(coord: u8, signal: int, threshold: int) -> u8 {
    if signal > threshold && coord < 7 {
        (coord + 1) as u8
    } else if signal < -threshold && coord > 0 {
        (coord - 1) as u8
    } else {
        coord
    }
}

/// Both axes stepped independently by their signals.
pub open spec fn spec_move(p: GridPosition, sx: int, sy: int, threshold: int) -> GridPosition {
    GridPosition { x: spec_axis_step(p.x, sx, threshold), y: spec_axis_step(p.y, sy, threshold) }
}

/// Whether the debounce interval has elapsed, so a transition may be
/// accepted.
pub open spec fn spec_debounce_ok(l: Logic, now_ms: u64) -> bool {
    now_ms - l.last_accept_ms >= DEBOUNCE_MS
}

/// The cursor after one received sample: unchanged inside the debounce
/// window, otherwise stepped by the two tilt angles (the y angle enters
/// negated, matching the panel's orientation).
pub open spec fn spec_step_pos(l: Logic, s: Mpu6050ObserverData, now_ms: u64) -> GridPosition {
    if spec_debounce_ok(l, now_ms) {
        spec_move(
            l.pos,
            s.acc_angle.x as int,
            -(s.acc_angle.y as int),
            ANGLE_DIV * MIN_ANGLE_TENTH_DEG,
        )
    } else {
        l.pos
    }
}

/// The whole controller state after one received sample: the previous
/// cell becomes the cell the cursor was on, and the debounce clock is
/// reset exactly when the sample was accepted.
pub open spec fn spec_step_state(l: Logic, s: Mpu6050ObserverData, now_ms: u64) -> Logic {
    Logic {
        pos: spec_step_pos(l, s, now_ms),
        old_pos: l.pos,
        last_accept_ms: if spec_debounce_ok(l, now_ms) {
            now_ms
        } else {
            l.last_accept_ms
        },
    }
}

/// The diff commands for a cursor move: nothing when the position is
/// unchanged, otherwise exactly old cell off, then new cell on.
pub open spec fn spec_move_cmds(old_pos: GridPosition, new_pos: GridPosition) -> Seq<
    Max7219Action,
> {
    if new_pos != old_pos {
        seq![
            Max7219Action::SetLedState { x: old_pos.x, y: old_pos.y, on: false },
            Max7219Action::SetLedState { x: new_pos.x, y: new_pos.y, on: true },
        ]
    } else {
        Seq::empty()
    }
}

impl Logic {
    /// Both stored cells lie on the grid.
    pub open spec fn wf(self) -> bool {
        &&& self.pos.x < 8
        &&& self.pos.y < 8
        &&& self.old_pos.x < 8
        &&& self.old_pos.y < 8
    }

    /// A fresh controller: the cursor starts mid-grid and the previous
    /// cell is seeded elsewhere, forcing the first frame to be drawn.
    pub fn new(start_ms: u64) -> (r: Logic)
        ensures
            r.wf(),
            r.pos == (GridPosition { x: 3, y: 3 }),
            r.old_pos == (GridPosition { x: 0, y: 0 }),
            r.last_accept_ms == start_ms,
    {
        Logic {
            pos: GridPosition { x: 3, y: 3 },
            old_pos: GridPosition { x: 0, y: 0 },
            last_accept_ms: start_ms,
        }
    }

    /// Step the cursor by one pair of tilt angles, in tenths of a degree.
    /// The angles are evaluated independently, so both axes may move in
    /// the same tick.
    pub fn handle_logic_acc_angle(&mut self, angle_x_td: i16, angle_y_td: i16)
        requires
            old(self).wf(),
        ensures
            final(self).wf(),
            final(self).pos == spec_move(
                old(self).pos,
                angle_x_td as int,
                angle_y_td as int,
                ANGLE_DIV * MIN_ANGLE_TENTH_DEG,
            ),
            final(self).old_pos == old(self).old_pos,
            final(self).last_accept_ms == old(self).last_accept_ms,
    {
        let threshold: i16 = ANGLE_DIV * MIN_ANGLE_TENTH_DEG;
        if angle_x_td > threshold && self.pos.x < 7 {
            self.pos.x = self.pos.x + 1;
        } else if angle_x_td < -threshold && self.pos.x > 0 {
            self.pos.x = self.pos.x - 1;
        }
        if angle_y_td > threshold && self.pos.y < 7 {
            self.pos.y = self.pos.y + 1;
        } else if angle_y_td < -threshold && self.pos.y > 0 {
            self.pos.y = self.pos.y - 1;
        }
    }

    /// Step the cursor by a pair of raw acceleration differences, in
    /// tenths of a g: the unscaled variant of the same state machine.
    pub fn handle_logic_acc_vec(&mut self, diff_x_tg: i16, diff_y_tg: i16)
        requires
            old(self).wf(),
        ensures
            final(self).wf(),
            final(self).pos == spec_move(
                old(self).pos,
                diff_x_tg as int,
                diff_y_tg as int,
                MIN_DIFF_TENTH_G as int,
            ),
            final(self).old_pos == old(self).old_pos,
            final(self).last_accept_ms == old(self).last_accept_ms,
    {
        if diff_x_tg > MIN_DIFF_TENTH_G && self.pos.x < 7 {
            self.pos.x = self.pos.x + 1;
        } else if diff_x_tg < -MIN_DIFF_TENTH_G && self.pos.x > 0 {
            self.pos.x = self.pos.x - 1;
        }
        if diff_y_tg > MIN_DIFF_TENTH_G && self.pos.y < 7 {
            self.pos.y = self.pos.y + 1;
        } else if diff_y_tg < -MIN_DIFF_TENTH_G && self.pos.y > 0 {
            self.pos.y = self.pos.y - 1;
        }
    }

    /// Consume one received sample: inside the debounce window the sample
    /// is dropped (keeping the queue drained); otherwise the angles drive
    /// the state machine.  When the position changed, exactly two
    /// commands come back, old cell off strictly before new cell on, to
    /// be sent before the next sample is read.
    pub fn step(&mut self, sample: &Mpu6050ObserverData, now_ms: u64) -> (cmds: Vec<
        Max7219Action,
    >)
        requires
            old(self).wf(),
            now_ms >= old(self).last_accept_ms,
            sample.acc_angle.y > i16::MIN,
        ensures
            final(self).wf(),
            *final(self) == spec_step_state(*old(self), *sample, now_ms),
            cmds@ == spec_move_cmds(old(self).pos, final(self).pos),
    {
        self.old_pos = self.pos;
        if now_ms - self.last_accept_ms >= DEBOUNCE_MS {
            self.last_accept_ms = now_ms;
            self.handle_logic_acc_angle(sample.acc_angle.x, -sample.acc_angle.y);
        }
        let mut cmds: Vec<Max7219Action> = Vec::new();
        if self.pos.x != self.old_pos.x || self.pos.y != self.old_pos.y {
            cmds.push(
                Max7219Action::SetLedState { x: self.old_pos.x, y: self.old_pos.y, on: false },
            );
            cmds.push(Max7219Action::SetLedState { x: self.pos.x, y: self.pos.y, on: true });
        }
        proof {
            assert(cmds@ =~= spec_move_cmds(old(self).pos, self.pos));
        }
        cmds
    }

    /// The commands emitted once before the main loop: clear the panel,
    /// then draw the freshly seeded cursor.
    pub fn startup_commands(&self) -> (cmds: Vec<Max7219Action>)
        ensures
            cmds@ == seq![Max7219Action::ClearScreen] + spec_move_cmds(self.old_pos, self.pos),
    {
        let mut cmds: Vec<Max7219Action> = Vec::new();
        cmds.push(Max7219Action::ClearScreen);
        if self.pos.x != self.old_pos.x || self.pos.y != self.old_pos.y {
            cmds.push(
                Max7219Action::SetLedState { x: self.old_pos.x, y: self.old_pos.y, on: false },
            );
            cmds.push(Max7219Action::SetLedState { x: self.pos.x, y: self.pos.y, on: true });
        }
        proof {
            assert(cmds@ =~= seq![Max7219Action::ClearScreen] + spec_move_cmds(
                self.old_pos,
                self.pos,
            ));
        }
        cmds
    }
}

/// The cursor after a whole sequence of signal pairs, applied in order.
pub open spec fn spec_apply_signals(
    p: GridPosition,
    signals: Seq<(int, int)>,
    threshold: int,
) -> GridPosition
    decreases signals.len(),
{
    if signals.len() == 0 {
        p
    } else {
        spec_move(
            spec_apply_signals(p, signals.drop_last(), threshold),
            signals.last().0,
            signals.last().1,
            threshold,
        )
    }
}

/// Law: signals that never ask for an upward step leave the cursor pinned
/// at the low corner: from `(0, 0)`, any number of left/down (or dead
/// zone) signals ends at `(0, 0)` — no underflow.
pub proof fn lemma_low_corner_clamped(signals: Seq<(int, int)>, threshold: int)
    requires
        forall|i: int|
            0 <= i < signals.len() ==> (#[trigger] signals[i]).0 <= threshold && signals[i].1
                <= threshold,
    ensures
        spec_apply_signals(GridPosition { x: 0, y: 0 }, signals, threshold) == (GridPosition {
            x: 0,
            y: 0,
        }),
    decreases signals.len(),
{
    if signals.len() > 0 {
        lemma_low_corner_clamped(signals.drop_last(), threshold);
    }
}

/// Law: signals that never ask for a downward step leave the cursor
/// pinned at the high corner: from `(7, 7)`, any number of right/up (or
/// dead zone) signals ends at `(7, 7)` — no overflow past the edge.
pub proof fn lemma_high_corner_clamped(signals: Seq<(int, int)>, threshold: int)
    requires
        forall|i: int|
            0 <= i < signals.len() ==> (#[trigger] signals[i]).0 >= -threshold && signals[i].1
                >= -threshold,
    ensures
        spec_apply_signals(GridPosition { x: 7, y: 7 }, signals, threshold) == (GridPosition {
            x: 7,
            y: 7,
        }),
    decreases signals.len(),
{
    if signals.len() > 0 {
        lemma_high_corner_clamped(signals.drop_last(), threshold);
    }
}

/// Law: when the cursor moves, the two diff commands, applied in order to
/// a frame that shows exactly the old cell, pass through a dark frame and
/// end on a frame that shows exactly the new cell — at no point between
/// or after the commands are two cells lit together.
pub proof fn lemma_move_cmds_keep_single_lit(
    rows: Seq<u8>,
    old_pos: GridPosition,
    new_pos: GridPosition,
)
    requires
        rows.len() == 8,
        old_pos.x < 8,
        old_pos.y < 8,
        new_pos.x < 8,
        new_pos.y < 8,
        new_pos != old_pos,
        spec_only_lit(rows, old_pos.x, old_pos.y),
    ensures
        spec_move_cmds(old_pos, new_pos).len() == 2,
        spec_none_lit(spec_rows_after_action(rows, spec_move_cmds(old_pos, new_pos)[0])),
        spec_only_lit(
            spec_rows_after_actions(rows, spec_move_cmds(old_pos, new_pos)),
            new_pos.x,
            new_pos.y,
        ),
{
    let cmds = spec_move_cmds(old_pos, new_pos);
    let c0 = cmds[0];
    let c1 = cmds[1];
    lemma_move_single_cell(rows, old_pos.x, old_pos.y, new_pos.x, new_pos.y);
    assert(cmds.drop_last() =~= seq![c0]);
    assert(seq![c0].drop_last() =~= Seq::<Max7219Action>::empty());
    assert(spec_rows_after_actions(rows, Seq::empty()) == rows);
    assert(spec_rows_after_actions(rows, seq![c0]) == spec_rows_after_action(rows, c0));
    assert(spec_rows_after_actions(rows, cmds) == spec_rows_after_action(
        spec_rows_after_action(rows, c0),
        c1,
    ));
}

/// Law: one received sample moves the cursor at most one cell per axis,
/// and it moves at all only when the debounce interval had elapsed; the
/// debounce clock is then reset, so accepted transitions are always at
/// least `DEBOUNCE_MS` apart.
pub proof fn lemma_step_bounded(l: Logic, s: Mpu6050ObserverData, now_ms: u64)
    ensures
        spec_step_pos(l, s, now_ms).x - l.pos.x <= 1,
        l.pos.x - spec_step_pos(l, s, now_ms).x <= 1,
        spec_step_pos(l, s, now_ms).y - l.pos.y <= 1,
        l.pos.y - spec_step_pos(l, s, now_ms).y <= 1,
        spec_step_pos(l, s, now_ms) != l.pos ==> now_ms - l.last_accept_ms >= DEBOUNCE_MS,
{
}

/// Law: at most one transition is accepted per debounce window, however
/// many samples arrive in it: after a sample is accepted at `now1`, every
/// sample arriving before `now1 + DEBOUNCE_MS` leaves the cursor where
/// that accepted sample put it.
pub proof fn lemma_debounce_window(
    l: Logic,
    s1: Mpu6050ObserverData,
    now1: u64,
    s2: Mpu6050ObserverData,
    now2: u64,
)
    requires
        spec_debounce_ok(l, now1),
        now1 <= now2,
        now2 < now1 + DEBOUNCE_MS,
    ensures
        spec_step_pos(spec_step_state(l, s1, now1), s2, now2) == spec_step_state(l, s1, now1).pos,
{
}

} // verus!
