use nesemu::controller::{keycode_to_bit, Controller, Key};

fn fresh() -> Controller {
    Controller::new()
}

#[test]
fn new_controller_is_idle() {
    let c = fresh();
    assert!(!c.reset);
    assert_eq!(c.register, 0);
    assert_eq!(c.index, 0);
}

#[test]
fn keys_map_to_buttons() {
    assert_eq!(keycode_to_bit(Key::O), 0);
    assert_eq!(keycode_to_bit(Key::P), 1);
    assert_eq!(keycode_to_bit(Key::I), 2);
    assert_eq!(keycode_to_bit(Key::U), 3);
    assert_eq!(keycode_to_bit(Key::W), 4);
    assert_eq!(keycode_to_bit(Key::S), 5);
    assert_eq!(keycode_to_bit(Key::A), 6);
    assert_eq!(keycode_to_bit(Key::D), 7);
    assert_eq!(keycode_to_bit(Key::Other), 0xFF);
}

#[test]
fn press_and_unpress_set_and_clear_one_bit() {
    let mut c = fresh();
    c.press(Key::O);
    c.press(Key::D);
    assert_eq!(c.register, 0b1000_0001);
    c.press(Key::Other);
    assert_eq!(c.register, 0b1000_0001);
    c.unpress(Key::O);
    assert_eq!(c.register, 0b1000_0000);
    c.unpress(Key::Other);
    assert_eq!(c.register, 0b1000_0000);
}

#[test]
fn serial_read_gives_buttons_in_order_then_ones() {
    let mut c = fresh();
    c.press(Key::P); // bit 1
    c.press(Key::W); // bit 4
    c.write(1);
    c.write(0);
    let bits: Vec<u8> = (0..10).map(|_| c.read()).collect();
    assert_eq!(bits, vec![0, 1, 0, 0, 1, 0, 0, 0, 1, 1]);
    assert_eq!(c.index, 8);
}

#[test]
fn strobe_holds_first_button() {
    let mut c = fresh();
    c.press(Key::O);
    c.write(1);
    assert_eq!(c.read(), 1);
    assert_eq!(c.read(), 1);
    assert_eq!(c.index, 0);
    c.unpress(Key::O);
    assert_eq!(c.read(), 0);
}

#[test]
fn write_without_strobe_keeps_position() {
    let mut c = fresh();
    c.read();
    c.read();
    c.write(0);
    assert_eq!(c.index, 2);
    c.write(3);
    assert!(c.reset);
    assert_eq!(c.index, 0);
}
