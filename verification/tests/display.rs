use tilt_grid::max7219::{Max7219, Max7219Action};

fn lit(m: &Max7219, x: u8, y: u8) -> bool {
    m.led_states[y as usize] & (1u8 << x) != 0
}

fn lit_count(m: &Max7219) -> u32 {
    let mut n = 0;
    for y in 0..8u8 {
        for x in 0..8u8 {
            if lit(m, x, y) {
                n += 1;
            }
        }
    }
    n
}

#[test]
fn init_sequence_is_exact_fourteen_messages() {
    let msgs = Max7219::init_messages();
    let expected: Vec<(u8, u8)> = vec![
        (0x0C, 0x00),
        (0x0F, 0x00),
        (0x0A, 0x00),
        (0x09, 0x00),
        (0x0B, 0x07),
        (1, 0),
        (2, 0),
        (3, 0),
        (4, 0),
        (5, 0),
        (6, 0),
        (7, 0),
        (8, 0),
        (0x0C, 0x01),
    ];
    assert_eq!(msgs, expected);
}

#[test]
fn new_controller_is_blank_and_dirty() {
    let m = Max7219::new();
    assert_eq!(m.led_states, [0u8; 8]);
    assert!(m.update);
}

#[test]
fn set_led_out_of_range_is_ignored() {
    let mut m = Max7219::new();
    let _ = m.take_frame();
    assert!(!m.update);
    m.set_led(8, 0, true);
    m.set_led(0, 8, true);
    m.set_led(255, 255, true);
    m.set_led(9, 3, false);
    assert_eq!(m.led_states, [0u8; 8]);
    assert!(!m.update);
}

#[test]
fn set_led_same_value_twice_sets_dirty_at_most_once() {
    let mut m = Max7219::new();
    let _ = m.take_frame();
    m.set_led(2, 3, true);
    assert!(m.update);
    let rows_after_first = m.led_states;
    let _ = m.take_frame();
    m.set_led(2, 3, true);
    assert!(!m.update);
    assert_eq!(m.led_states, rows_after_first);
}

#[test]
fn set_led_drives_single_bit() {
    let mut m = Max7219::new();
    m.set_led(5, 2, true);
    assert_eq!(m.led_states[2], 1u8 << 5);
    assert!(lit(&m, 5, 2));
    assert_eq!(lit_count(&m), 1);
    m.set_led(5, 2, false);
    assert_eq!(m.led_states, [0u8; 8]);
}

#[test]
fn clear_screen_action_blanks_and_dirties() {
    let mut m = Max7219::new();
    m.set_led(1, 1, true);
    m.set_led(7, 0, true);
    let _ = m.take_frame();
    assert!(!m.update);
    m.apply_action(Max7219Action::ClearScreen);
    assert_eq!(m.led_states, [0u8; 8]);
    assert!(m.update);
}

#[test]
fn frame_messages_map_rows_to_addresses_one_to_eight() {
    let mut m = Max7219::new();
    m.set_led(0, 0, true);
    m.set_led(3, 7, true);
    let msgs = m.frame_messages();
    assert_eq!(msgs.len(), 8);
    for (i, msg) in msgs.iter().enumerate() {
        assert_eq!(msg.0, i as u8 + 1);
        assert_eq!(msg.1, m.led_states[i]);
    }
    assert_eq!(msgs[0], (1, 0b0000_0001));
    assert_eq!(msgs[7], (8, 0b0000_1000));
}

#[test]
fn take_frame_only_when_dirty() {
    let mut m = Max7219::new();
    let first = m.take_frame();
    assert!(first.is_some());
    assert_eq!(first.unwrap().len(), 8);
    assert!(!m.update);
    assert!(m.take_frame().is_none());
    m.set_led(4, 4, true);
    let second = m.take_frame();
    assert_eq!(second.unwrap()[4], (5, 1u8 << 4));
}

#[test]
fn cursor_move_never_shows_two_lit_cells() {
    let mut m = Max7219::new();
    m.set_led(3, 3, true);
    assert!(lit(&m, 3, 3));
    assert_eq!(lit_count(&m), 1);

    m.apply_action(Max7219Action::SetLedState { x: 3, y: 3, on: false });
    assert!(!lit(&m, 3, 3));
    assert!(!lit(&m, 4, 3));
    assert_eq!(lit_count(&m), 0);

    m.apply_action(Max7219Action::SetLedState { x: 4, y: 3, on: true });
    assert!(!lit(&m, 3, 3));
    assert!(lit(&m, 4, 3));
    assert_eq!(lit_count(&m), 1);
}

#[test]
fn demo_messages_walk_one_bit_then_blank() {
    let msgs = Max7219::demo_messages();
    assert_eq!(msgs.len(), 16);
    for i in 0..8 {
        assert_eq!(msgs[i], (i as u8 + 1, 1u8 << i));
    }
    for i in 8..16 {
        assert_eq!(msgs[i], (i as u8 - 7, 0));
    }
}
