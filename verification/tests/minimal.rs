use std::cell::RefCell;
use std::rc::Rc;

use grove_lcd_rgb::{Bus, Delay, GroveLcdRgb};

#[derive(Debug, Clone, PartialEq, Eq)]
enum Seen {
    Write(u8, Vec<u8>),
    Refused(u8, Vec<u8>),
    DelayMs(u32),
    DelayUs(u32),
}

#[derive(Debug, Clone, Copy, PartialEq, Eq)]
struct Nack(usize);

type Log = Rc<RefCell<Vec<Seen>>>;

struct MockBus {
    log: Log,
    refuse: Option<usize>,
    writes: usize,
}

impl Bus for MockBus {
    type Error = Nack;

    fn write(&mut self, address: u8, bytes: &[u8]) -> Result<(), Nack> {
        let number = self.writes;
        self.writes += 1;
        if self.refuse == Some(number) {
            self.log.borrow_mut().push(Seen::Refused(address, bytes.to_vec()));
            Err(Nack(number))
        } else {
            self.log.borrow_mut().push(Seen::Write(address, bytes.to_vec()));
            Ok(())
        }
    }
}

struct MockDelay {
    log: Log,
}

impl Delay for MockDelay {
    fn delay_ms(&mut self, ms: u32) {
        self.log.borrow_mut().push(Seen::DelayMs(ms));
    }

    fn delay_us(&mut self, us: u32) {
        self.log.borrow_mut().push(Seen::DelayUs(us));
    }
}

fn parts(refuse: Option<usize>) -> (MockBus, MockDelay, Log) {
    let log: Log = Rc::new(RefCell::new(Vec::new()));
    (MockBus { log: log.clone(), refuse, writes: 0 }, MockDelay { log: log.clone() }, log)
}

/// A board that was brought up, and its log emptied.
fn small_board(refuse: Option<usize>) -> (GroveLcdRgb<MockBus, MockDelay>, Log) {
    let (bus, delay, log) = parts(refuse);
    let lcd = match GroveLcdRgb::new(bus, delay) {
        Ok(lcd) => lcd,
        Err(e) => panic!("bring-up refused: {:?}", e),
    };
    log.borrow_mut().clear();
    (lcd, log)
}

fn take(log: &Log) -> Vec<Seen> {
    log.borrow_mut().drain(..).collect()
}

fn command(value: u8) -> Seen {
    Seen::Write(0x3E, vec![0x80, value])
}

fn data(value: u8) -> Seen {
    Seen::Write(0x3E, vec![0x40, value])
}

fn register(register: u8, value: u8) -> Seen {
    Seen::Write(0x62, vec![register, value])
}

fn bring_up() -> Vec<Seen> {
    vec![
        register(0x00, 0x00),
        register(0x01, 0x00),
        register(0x08, 0xAA),
        command(0x38),
        command(0x39),
        command(0x14),
        command(0x70),
        command(0x56),
        command(0x6C),
        Seen::DelayMs(200),
        command(0x38),
        command(0x0C),
        command(0x01),
        Seen::DelayMs(2),
    ]
}

#[test]
fn small_new_brings_the_board_up() {
    let (bus, delay, log) = parts(None);
    assert!(GroveLcdRgb::new(bus, delay).is_ok());
    assert_eq!(take(&log), bring_up());
}

#[test]
fn small_new_stops_at_every_refused_write() {
    let whole = bring_up();
    let positions: Vec<usize> =
        (0..whole.len()).filter(|&i| matches!(whole[i], Seen::Write(..))).collect();
    assert_eq!(positions.len(), 12);
    for (number, &position) in positions.iter().enumerate() {
        let (bus, delay, log) = parts(Some(number));
        match GroveLcdRgb::new(bus, delay) {
            Ok(_) => panic!("write {} was refused", number),
            Err(e) => assert_eq!(e, Nack(number)),
        }
        let seen = take(&log);
        assert_eq!(seen.len(), position + 1);
        assert_eq!(seen[..position].to_vec(), whole[..position].to_vec());
        match (&seen[position], &whole[position]) {
            (Seen::Refused(a, b), Seen::Write(c, d)) => {
                assert_eq!(a, c);
                assert_eq!(b, d);
            }
            other => panic!("step {}: {:?}", position, other),
        }
    }
}

#[test]
fn small_clear_sends_the_command_then_waits() {
    let (mut lcd, log) = small_board(None);
    assert_eq!(lcd.clear(), Ok(()));
    assert_eq!(take(&log), vec![command(0x01), Seen::DelayMs(2)]);
}

#[test]
fn small_refused_clear_skips_the_wait() {
    let (mut lcd, log) = small_board(Some(12));
    assert_eq!(lcd.clear(), Err(Nack(12)));
    assert_eq!(take(&log), vec![Seen::Refused(0x3E, vec![0x80, 0x01])]);
}

#[test]
fn small_set_cursor_adds_the_row_offset() {
    let (mut lcd, log) = small_board(None);
    lcd.set_cursor(0, 0).unwrap();
    lcd.set_cursor(5, 0).unwrap();
    lcd.set_cursor(0, 1).unwrap();
    lcd.set_cursor(5, 1).unwrap();
    lcd.set_cursor(15, 1).unwrap();
    lcd.set_cursor(191, 1).unwrap();
    lcd.set_cursor(255, 0).unwrap();
    assert_eq!(
        take(&log),
        vec![
            command(0x80),
            command(0x85),
            command(0xC0),
            command(0xC5),
            command(0xCF),
            command(0xFF),
            command(0xFF),
        ]
    );
}

#[test]
fn small_print_sends_the_bytes() {
    let (mut lcd, log) = small_board(None);
    lcd.print("Hello").unwrap();
    let expected: Vec<Seen> = "Hello".bytes().map(data).collect();
    assert_eq!(take(&log), expected);
}

#[test]
fn small_print_of_nothing_sends_nothing() {
    let (mut lcd, log) = small_board(None);
    lcd.print("").unwrap();
    assert!(take(&log).is_empty());
}

#[test]
fn small_print_wraps_after_sixteen_columns() {
    let (mut lcd, log) = small_board(None);
    lcd.print("0123456789ABCDEFG").unwrap();
    let mut expected: Vec<Seen> = "0123456789ABCDEF".bytes().map(data).collect();
    expected.push(command(0xC0));
    expected.push(data(b'G'));
    assert_eq!(take(&log), expected);
}

#[test]
fn small_print_wraps_at_exactly_sixteen_columns() {
    let (mut lcd, log) = small_board(None);
    lcd.print("0123456789ABCDEF").unwrap();
    let mut expected: Vec<Seen> = "0123456789ABCDEF".bytes().map(data).collect();
    expected.push(command(0xC0));
    assert_eq!(take(&log), expected);
}

#[test]
fn small_print_wraps_to_the_second_row_again_and_again() {
    let (mut lcd, log) = small_board(None);
    let text = "0123456789ABCDEF0123456789abcdefXY";
    lcd.print(text).unwrap();
    let mut expected: Vec<Seen> = Vec::new();
    expected.extend("0123456789ABCDEF".bytes().map(data));
    expected.push(command(0xC0));
    expected.extend("0123456789abcdef".bytes().map(data));
    expected.push(command(0xC0));
    expected.extend("XY".bytes().map(data));
    assert_eq!(take(&log), expected);
}

#[test]
fn small_print_moves_to_the_second_row_at_a_line_feed() {
    let (mut lcd, log) = small_board(None);
    lcd.print("ab\ncd\n\ne").unwrap();
    assert_eq!(
        take(&log),
        vec![
            data(b'a'),
            data(b'b'),
            command(0xC0),
            data(b'c'),
            data(b'd'),
            command(0xC0),
            command(0xC0),
            data(b'e'),
        ]
    );
}

#[test]
fn small_print_counts_columns_from_the_line_feed() {
    let (mut lcd, log) = small_board(None);
    lcd.print("abc\n0123456789ABCDEFg").unwrap();
    let mut expected: Vec<Seen> = "abc".bytes().map(data).collect();
    expected.push(command(0xC0));
    expected.extend("0123456789ABCDEF".bytes().map(data));
    expected.push(command(0xC0));
    expected.push(data(b'g'));
    assert_eq!(take(&log), expected);
}

#[test]
fn small_print_sends_the_bytes_of_the_utf8_form() {
    let (mut lcd, log) = small_board(None);
    lcd.print("\u{e9}").unwrap();
    assert_eq!(take(&log), vec![data(0xC3), data(0xA9)]);
}

#[test]
fn small_print_stops_at_a_refused_byte() {
    let (mut lcd, log) = small_board(Some(13));
    assert_eq!(lcd.print("abc"), Err(Nack(13)));
    assert_eq!(take(&log), vec![data(b'a'), Seen::Refused(0x3E, vec![0x40, b'b'])]);
}

#[test]
fn small_print_stops_at_a_refused_cursor_move() {
    let (mut lcd, log) = small_board(Some(13));
    assert_eq!(lcd.print("a\nb"), Err(Nack(13)));
    assert_eq!(take(&log), vec![data(b'a'), Seen::Refused(0x3E, vec![0x80, 0xC0])]);
}

#[test]
fn small_set_rgb_writes_red_green_blue() {
    let (mut lcd, log) = small_board(None);
    lcd.set_rgb(255, 0, 128).unwrap();
    assert_eq!(take(&log), vec![register(0x04, 255), register(0x03, 0), register(0x02, 128)]);
}

#[test]
fn small_set_rgb_stops_at_the_first_refused_write() {
    let (mut lcd, log) = small_board(Some(13));
    assert_eq!(lcd.set_rgb(1, 2, 3), Err(Nack(13)));
    assert_eq!(take(&log), vec![register(0x04, 1), Seen::Refused(0x62, vec![0x03, 2])]);
}

#[test]
fn small_display_on_and_off() {
    let (mut lcd, log) = small_board(None);
    lcd.display_off().unwrap();
    lcd.display_on().unwrap();
    assert_eq!(take(&log), vec![command(0x08), command(0x0C)]);
}

#[test]
fn small_free_hands_the_parts_back() {
    let (lcd, log) = small_board(None);
    let (bus, mut delay) = lcd.free();
    assert_eq!(bus.writes, 12);
    delay.delay_us(3);
    assert_eq!(take(&log), vec![Seen::DelayUs(3)]);
}
