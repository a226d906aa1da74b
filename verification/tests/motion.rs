use tilt_grid::logic::{GridPosition, Logic, DEBOUNCE_MS};
use tilt_grid::max7219::{Max7219, Max7219Action};
use tilt_grid::mpu6050::{AxisTriple, CalibrationAccumulator, Mpu6050, Mpu6050ObserverData};

fn angles(x: i16, y: i16) -> Mpu6050ObserverData {
    Mpu6050ObserverData {
        acc_vec: AxisTriple { x: 0, y: 0, z: 10 },
        acc_angle: AxisTriple { x, y, z: 0 },
    }
}

#[test]
fn new_controller_starts_mid_grid_with_forced_redraw() {
    let l = Logic::new(0);
    assert_eq!(l.pos, GridPosition { x: 3, y: 3 });
    assert_eq!(l.old_pos, GridPosition { x: 0, y: 0 });
    let cmds = l.startup_commands();
    assert_eq!(
        cmds,
        vec![
            Max7219Action::ClearScreen,
            Max7219Action::SetLedState { x: 0, y: 0, on: false },
            Max7219Action::SetLedState { x: 3, y: 3, on: true },
        ]
    );
}

#[test]
fn low_corner_never_underflows() {
    let mut l = Logic {
        pos: GridPosition { x: 0, y: 0 },
        old_pos: GridPosition { x: 0, y: 0 },
        last_accept_ms: 0,
    };
    // Move left (negative x angle) and move down (positive y angle, which
    // enters the state machine negated) over and over.
    let mut now = 0u64;
    for _ in 0..20 {
        now += DEBOUNCE_MS + 10;
        let cmds = l.step(&angles(-400, 400), now);
        assert_eq!(l.pos, GridPosition { x: 0, y: 0 });
        assert!(cmds.is_empty());
    }
}

#[test]
fn high_corner_never_overflows() {
    let mut l = Logic {
        pos: GridPosition { x: 7, y: 7 },
        old_pos: GridPosition { x: 7, y: 7 },
        last_accept_ms: 0,
    };
    // Move right (positive x angle) and move up (negative y angle).
    let mut now = 0u64;
    for _ in 0..20 {
        now += DEBOUNCE_MS + 10;
        let cmds = l.step(&angles(400, -400), now);
        assert_eq!(l.pos, GridPosition { x: 7, y: 7 });
        assert!(cmds.is_empty());
    }
}

#[test]
fn dead_zone_boundary_holds_position() {
    let mut l = Logic::new(0);
    // A scaled tilt of exactly the 5 degree threshold (20.0 degrees raw)
    // is inside the dead zone: the comparison is strict.
    let cmds = l.step(&angles(200, -200), 60);
    assert_eq!(l.pos, GridPosition { x: 3, y: 3 });
    assert!(cmds.is_empty());
}

#[test]
fn both_axes_may_move_in_one_tick() {
    let mut l = Logic::new(0);
    let cmds = l.step(&angles(400, -400), 60);
    assert_eq!(l.pos, GridPosition { x: 4, y: 4 });
    assert_eq!(cmds.len(), 2);
    assert_eq!(cmds[0], Max7219Action::SetLedState { x: 3, y: 3, on: false });
    assert_eq!(cmds[1], Max7219Action::SetLedState { x: 4, y: 4, on: true });
}

#[test]
fn move_emits_old_off_strictly_before_new_on() {
    let mut l = Logic::new(0);
    let cmds = l.step(&angles(400, 0), 60);
    assert_eq!(l.pos, GridPosition { x: 4, y: 3 });
    assert_eq!(
        cmds,
        vec![
            Max7219Action::SetLedState { x: 3, y: 3, on: false },
            Max7219Action::SetLedState { x: 4, y: 3, on: true },
        ]
    );
}

#[test]
fn sustained_tilt_moves_one_cell_per_debounce_window() {
    // End to end: calibrate 200 cycles on a level, stationary fixture,
    // then hold a scaled +10 degree x tilt (40.0 degrees raw, i.e. 400
    // tenths) across many samples.
    let mut cal = CalibrationAccumulator::new();
    for _ in 0..200 {
        cal.add_sample(0, 0, 16384);
    }
    assert_eq!(cal.bias_numerator(0, 0), 0);
    assert_eq!(cal.bias_numerator(1, 0), 0);
    assert_eq!(cal.bias_numerator(2, 16384), 0);

    let level = angles(0, 0);
    let mut gate = Mpu6050::new(level);
    let mut logic = Logic::new(0);
    let mut display = Max7219::new();

    for cmd in logic.startup_commands() {
        display.apply_action(cmd);
    }
    let _ = display.take_frame();

    let tilted = angles(400, 0);
    assert!(gate.offer(&tilted));

    // Samples arrive every 10 ms; only one transition per 50 ms window
    // may be accepted.
    let mut moves = 0;
    let mut now = 50u64;
    let mut window_start_pos = logic.pos;
    for i in 0..11u64 {
        let cmds = logic.step(&tilted, now + 10 * i);
        if !cmds.is_empty() {
            moves += 1;
            for cmd in cmds {
                display.apply_action(cmd);
            }
        }
        // Within any window of samples closer than 50 ms, at most one
        // cell of movement on the x axis.
        assert!(logic.pos.x as i32 - window_start_pos.x as i32 <= 1);
        if (10 * i) % 50 == 0 {
            window_start_pos = logic.pos;
        }
    }
    // 11 samples spanning 100 ms: the windows at 50, 100 and 150 ms
    // accept exactly one transition each.
    assert_eq!(moves, 3);
    assert_eq!(logic.pos, GridPosition { x: 6, y: 3 });

    // The rendered frame shows exactly the final cursor cell.
    let frame = display.take_frame().expect("a repaint is owed");
    for (i, msg) in frame.iter().enumerate() {
        let expected = if i == 3 { 1u8 << 6 } else { 0 };
        assert_eq!(*msg, (i as u8 + 1, expected));
    }
}

#[test]
fn samples_inside_debounce_window_are_consumed_without_moving() {
    let mut l = Logic::new(0);
    let tilted = angles(400, 0);
    let cmds = l.step(&tilted, 60);
    assert_eq!(cmds.len(), 2);
    assert_eq!(l.pos, GridPosition { x: 4, y: 3 });
    for dt in [1u64, 10, 20, 49] {
        let cmds = l.step(&tilted, 60 + dt);
        assert!(cmds.is_empty());
        assert_eq!(l.pos, GridPosition { x: 4, y: 3 });
    }
    let cmds = l.step(&tilted, 110);
    assert_eq!(cmds.len(), 2);
    assert_eq!(l.pos, GridPosition { x: 5, y: 3 });
}

#[test]
fn acc_vec_variant_steps_on_tenth_g_threshold() {
    let mut l = Logic::new(0);
    l.handle_logic_acc_vec(3, 0);
    assert_eq!(l.pos, GridPosition { x: 4, y: 3 });
    l.handle_logic_acc_vec(2, -2);
    assert_eq!(l.pos, GridPosition { x: 4, y: 3 });
    l.handle_logic_acc_vec(-3, 3);
    assert_eq!(l.pos, GridPosition { x: 3, y: 4 });
}
