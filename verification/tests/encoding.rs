use gdterm::pty_driver::encode_key;
use gdterm::pty_driver::InputEvent;
use gdterm::pty_driver::KeyEvent;
use gdterm::pty_driver::PtyDriver;
use gdterm::pty_driver::KEY_BACKSPACE;
use gdterm::pty_driver::KEY_ENTER;
use gdterm::pty_driver::KEY_ESCAPE;
use gdterm::pty_driver::KEY_SPACE;
use gdterm::pty_driver::KEY_TAB;

const KEY_A: i64 = 65;

fn press(scancode: i64, unicode: i64) -> InputEvent {
    InputEvent { pressed: true, key: Some(KeyEvent { scancode, unicode }) }
}

fn bytes_of(unicode: i64) -> Option<Vec<u8>> {
    encode_key(&KeyEvent { scancode: KEY_A, unicode })
}

#[test]
fn backspace_is_byte_8() {
    let mut driver = PtyDriver::new();
    assert_eq!(driver.on_input(press(KEY_BACKSPACE, 0)), Some(vec![8u8]));
}

#[test]
fn enter_is_byte_10() {
    let mut driver = PtyDriver::new();
    assert_eq!(driver.on_input(press(KEY_ENTER, 0)), Some(vec![10u8]));
}

#[test]
fn space_is_byte_32() {
    let mut driver = PtyDriver::new();
    assert_eq!(driver.on_input(press(KEY_SPACE, 32)), Some(vec![32u8]));
}

#[test]
fn escape_is_byte_27() {
    let mut driver = PtyDriver::new();
    assert_eq!(driver.on_input(press(KEY_ESCAPE, 0)), Some(vec![27u8]));
}

#[test]
fn tab_is_byte_9() {
    let mut driver = PtyDriver::new();
    assert_eq!(driver.on_input(press(KEY_TAB, 9)), Some(vec![9u8]));
}

#[test]
fn control_key_wins_over_its_code_point() {
    assert_eq!(
        encode_key(&KeyEvent { scancode: KEY_ENTER, unicode: 13 }),
        Some(vec![10u8])
    );
    assert_eq!(
        encode_key(&KeyEvent { scancode: KEY_BACKSPACE, unicode: 0x1F600 }),
        Some(vec![8u8])
    );
}

#[test]
fn host_key_codes() {
    assert_eq!(KEY_ESCAPE, 16777217);
    assert_eq!(KEY_TAB, 16777218);
    assert_eq!(KEY_BACKSPACE, 16777220);
    assert_eq!(KEY_ENTER, 16777221);
    assert_eq!(KEY_SPACE, 32);
}

#[test]
fn code_point_zero_sends_nothing() {
    let mut driver = PtyDriver::new();
    assert_eq!(driver.on_input(press(KEY_A, 0)), None);
    assert_eq!(driver.on_input(press(16777237, 0)), None);
    assert_eq!(bytes_of(0), None);
}

#[test]
fn ascii_letter_is_one_byte() {
    let mut driver = PtyDriver::new();
    assert_eq!(driver.on_input(press(KEY_A, 97)), Some(vec![97u8]));
    assert_eq!(bytes_of(1), Some(vec![1u8]));
    assert_eq!(bytes_of(255), Some(vec![255u8]));
}

#[test]
fn byte_count_is_the_least_that_holds_the_value() {
    assert_eq!(bytes_of(256), Some(vec![0u8, 1]));
    assert_eq!(bytes_of(510), Some(vec![254u8, 1]));
    assert_eq!(bytes_of(511), Some(vec![255u8, 1]));
    assert_eq!(bytes_of(765), Some(vec![253u8, 2]));
    assert_eq!(bytes_of(766), Some(vec![254u8, 2]));
    assert_eq!(bytes_of(0xFFFF), Some(vec![0xFFu8, 0xFF]));
    assert_eq!(bytes_of(0x1_0000), Some(vec![0u8, 0, 1]));
    assert_eq!(bytes_of(0xFF_FFFF), Some(vec![0xFFu8, 0xFF, 0xFF]));
    assert_eq!(bytes_of(0x100_0000), Some(vec![0u8, 0, 0, 1]));
    assert_eq!(bytes_of(0xFFFF_FFFF), Some(vec![0xFFu8, 0xFF, 0xFF, 0xFF]));
}

#[test]
fn code_points_beyond_ascii() {
    assert_eq!(bytes_of(0xE9), Some(vec![0xE9u8]));
    assert_eq!(bytes_of(0x20AC), Some(vec![0xACu8, 0x20]));
    assert_eq!(bytes_of(0x1F600), Some(vec![0x00u8, 0xF6, 0x01]));
    assert_eq!(bytes_of(0x10FFFF), Some(vec![0xFFu8, 0xFF, 0x10]));
    assert_eq!(bytes_of(0x1234_5678), Some(vec![0x78u8, 0x56, 0x34, 0x12]));
}

#[test]
fn bytes_read_back_give_the_code_point() {
    for cp in [1i64, 97, 255, 256, 511, 0x20AC, 0xFFFF, 0x1_0000, 0x1F600, 0x10FFFF, 0x100_0000, 0xFFFF_FFFF] {
        let bytes = bytes_of(cp).unwrap();
        let mut value: i64 = 0;
        for (i, byte) in bytes.iter().enumerate() {
            value += (*byte as i64) << (8 * i);
        }
        assert_eq!(value, cp);
        assert_ne!(*bytes.last().unwrap(), 0);
    }
}

#[test]
fn values_beyond_four_bytes_are_cut() {
    assert_eq!(bytes_of(0x1_0000_0041), Some(vec![0x41u8, 0, 0, 0]));
    assert_eq!(bytes_of(i64::MAX), Some(vec![0xFFu8, 0xFF, 0xFF, 0xFF]));
}

#[test]
fn negative_value_gives_an_empty_chunk() {
    assert_eq!(bytes_of(-1), Some(Vec::new()));
    assert_eq!(bytes_of(i64::MIN), Some(Vec::new()));
}

#[test]
fn release_sends_nothing() {
    let mut driver = PtyDriver::new();
    let release = InputEvent { pressed: false, key: Some(KeyEvent { scancode: KEY_A, unicode: 97 }) };
    assert!(!release.is_key_press());
    assert_eq!(driver.on_input(release), None);
    let release = InputEvent { pressed: false, key: Some(KeyEvent { scancode: KEY_ENTER, unicode: 0 }) };
    assert_eq!(driver.on_input(release), None);
}

#[test]
fn event_without_key_sends_nothing() {
    let mut driver = PtyDriver::new();
    let click = InputEvent { pressed: true, key: None };
    assert!(!click.is_key_press());
    assert_eq!(driver.on_input(click), None);
}

#[test]
fn key_press_is_recognised_even_without_bytes() {
    assert!(press(KEY_A, 0).is_key_press());
    assert!(press(KEY_ENTER, 0).is_key_press());
}

#[test]
fn closed_session_sends_nothing() {
    let mut driver = PtyDriver::new();
    assert!(!driver.is_closed());
    assert_eq!(driver.on_input(press(KEY_A, 97)), Some(vec![97u8]));
    assert!(!driver.is_closed());
    driver.submit_failed();
    assert!(driver.is_closed());
    assert_eq!(driver.on_input(press(KEY_A, 97)), None);
    assert_eq!(driver.on_input(press(KEY_ENTER, 0)), None);
    assert!(driver.is_closed());
    driver.submit_failed();
    assert!(driver.is_closed());
}
