use key_stream::hid_keycodes::{
    KBD_A, KBD_BACKSPACE, KBD_JP_CLOSE_BRACKET, KBD_JP_SEMICOLON, KBD_MODIFIER_LEFT_CTRL, KBD_U,
};
use key_stream::key_stream::{Action, ComboKeyResult, KeyStream, COMBO_THRESHOLD_CNT};
use key_stream::keymap::Command;

const COMBO_THRESHOLD_MS: u32 = 200;
const COMBO_SEPARATION_MS: u32 = 500;

// Convert millisecond to clock with arbitrary offset.
fn ms(ms: u32) -> u32 {
    (1204 + ms) * 72_000
}

struct MockEmit {
    history: Vec<[u8; 8]>,
}

fn mock_emit() -> MockEmit {
    MockEmit { history: vec![] }
}

impl MockEmit {
    fn emit_all(&mut self, v: Vec<[u8; 8]>) {
        self.history.extend(v)
    }
    fn verify(&self, expected: Vec<[u8; 8]>) {
        assert_eq!(self.history, expected);
    }
}

#[test]
fn test_key_stream_simple_key_in() {
    let mut stream = KeyStream::new();
    let mut e = mock_emit();
    stream.push(&[0x22, 0, 0, 0, 0, 0, 0, 0], &[0u8; 8], ms(100));
    e.emit_all(stream.read(ms(101)));
    e.verify(vec![[0, 0, KBD_A, 0, 0, 0, 0, 0]]);
}

#[test]
fn test_key_stream_combo_key_flash_by_time() {
    let mut stream = KeyStream::new();
    let mut e = mock_emit();
    let semicolon = [0, 0, KBD_JP_SEMICOLON, 0, 0, 0, 0, 0];

    stream.push(&[0u8; 8], &[0xa5, 0, 0, 0, 0, 0, 0, 0], ms(0));
    e.emit_all(stream.read(ms(1)));
    e.verify(vec![]);

    // still wait
    stream.push(&[0u8; 8], &[0xa5, 0, 0, 0, 0, 0, 0, 0], ms(COMBO_THRESHOLD_MS - 1));
    e.emit_all(stream.read(ms(COMBO_THRESHOLD_MS - 1)));
    e.verify(vec![]);

    stream.push(&[0u8; 8], &[0xa5, 0, 0, 0, 0, 0, 0, 0], ms(COMBO_THRESHOLD_MS + 1));
    e.emit_all(stream.read(ms(COMBO_THRESHOLD_MS + 1)));
    e.verify(vec![semicolon]);

    // key repeat
    stream.push(&[0u8; 8], &[0xa5, 0, 0, 0, 0, 0, 0, 0], ms(COMBO_THRESHOLD_MS + 2));
    e.emit_all(stream.read(ms(COMBO_THRESHOLD_MS + 2)));
    e.verify(vec![semicolon, semicolon]);
}

#[test]
fn test_key_stream_combo_no_pause() {
    // With a separation of 500 ms (549 counts), a combo cannot follow a key
    // reported just before it.
    let mut stream = KeyStream::with_combo_timing(COMBO_THRESHOLD_CNT, 549);
    let mut e = mock_emit();
    let a = [0, 0, KBD_A, 0, 0, 0, 0, 0];
    let semi = [0, 0, KBD_JP_SEMICOLON, 0, 0, 0, 0, 0];
    let semi_bksp = [0, 0, KBD_JP_SEMICOLON, KBD_BACKSPACE, 0, 0, 0, 0];

    stream.push(&[0u8; 8], &[0x22, 0, 0, 0, 0, 0, 0, 0], ms(0));
    e.emit_all(stream.read(ms(1)));
    e.verify(vec![a]);

    // down key combo
    stream.push(&[0u8; 8], &[0xa5, 0xa6, 0, 0, 0, 0, 0, 0], ms(2));
    e.emit_all(stream.read(ms(3)));
    e.verify(vec![a, semi, semi_bksp]);
}

#[test]
fn test_key_stream_combo_after_pause() {
    let mut stream = KeyStream::new();
    let mut e = mock_emit();
    let a = [0, 0, KBD_A, 0, 0, 0, 0, 0];
    let bracket = [0, 0, KBD_JP_CLOSE_BRACKET, 0, 0, 0, 0, 0];

    stream.push(&[0u8; 8], &[0x22, 0, 0, 0, 0, 0, 0, 0], ms(0));
    e.emit_all(stream.read(ms(1)));
    e.verify(vec![a]);

    // down key combo
    stream.push(&[0u8; 8], &[0xa5, 0xa6, 0, 0, 0, 0, 0, 0], ms(1 + COMBO_SEPARATION_MS));
    e.emit_all(stream.read(ms(1 + COMBO_SEPARATION_MS + COMBO_THRESHOLD_MS)));
    e.verify(vec![a, bracket]);
}

#[test]
fn test_key_stream_combo_key_flash_by_release() {
    let mut stream = KeyStream::new();
    let mut e = mock_emit();
    let semicolon = [0, 0, KBD_JP_SEMICOLON, 0, 0, 0, 0, 0];

    stream.push(&[0u8; 8], &[0xa5, 0, 0, 0, 0, 0, 0, 0], ms(0));
    e.emit_all(stream.read(ms(1)));
    e.verify(vec![]);

    // flash rightly because released
    stream.push(&[0u8; 8], &[0u8; 8], ms(1));
    e.emit_all(stream.read(ms(2)));
    e.verify(vec![semicolon]);
}

#[test]
fn test_key_stream_combo_key_flash_by_other_key() {
    let mut stream = KeyStream::new();
    let mut e = mock_emit();
    let semicolon = [0, 0, KBD_JP_SEMICOLON, 0, 0, 0, 0, 0];
    let a = [0, 0, KBD_A, 0, 0, 0, 0, 0];

    stream.push(&[0u8; 8], &[0xa5, 0, 0, 0, 0, 0, 0, 0], ms(0));
    e.emit_all(stream.read(ms(1)));
    e.verify(vec![]);

    // flash rightly because non combo key is pressed
    stream.push(&[0x22, 0, 0, 0, 0, 0, 0, 0], &[0u8; 8], ms(1));
    e.emit_all(stream.read(ms(2)));
    e.verify(vec![semicolon, a]);
}

#[test]
fn test_key_stream_combo_in_one_scan() {
    let mut stream = KeyStream::new();
    let mut e = mock_emit();
    let bracket = [0, 0, KBD_JP_CLOSE_BRACKET, 0, 0, 0, 0, 0];
    let zero = [0, 0, 0, 0, 0, 0, 0, 0];

    stream.push(&[0u8; 8], &[0xa5, 0, 0, 0, 0, 0, 0, 0], ms(0));
    stream.push(&[0u8; 8], &[0xa5, 0xa6, 0, 0, 0, 0, 0, 0], ms(1));
    stream.push(&[0u8; 8], &[0xa6, 0, 0, 0, 0, 0, 0, 0], ms(2));
    stream.push(&[0u8; 8], &[0, 0, 0, 0, 0, 0, 0, 0], ms(3));
    e.emit_all(stream.read(ms(4)));
    e.verify(vec![bracket]);

    stream.push(&[0u8; 8], &[0u8; 8], ms(5));
    e.emit_all(stream.read(ms(COMBO_THRESHOLD_MS + 10)));
    e.verify(vec![bracket, zero]); // no new key
}

#[test]
fn test_key_stream_combo_in_two_scans() {
    let mut stream = KeyStream::new();
    let mut e = mock_emit();
    let bracket = [0, 0, KBD_JP_CLOSE_BRACKET, 0, 0, 0, 0, 0];
    let zero = [0, 0, 0, 0, 0, 0, 0, 0];

    stream.push(&[0u8; 8], &[0xa5, 0, 0, 0, 0, 0, 0, 0], ms(0));
    e.emit_all(stream.read(ms(0)));
    stream.push(&[0u8; 8], &[0xa5, 0xa6, 0, 0, 0, 0, 0, 0], ms(1));
    e.emit_all(stream.read(ms(1)));
    e.verify(vec![bracket]);
    stream.push(&[0u8; 8], &[0xa6, 0, 0, 0, 0, 0, 0, 0], ms(2));
    e.emit_all(stream.read(ms(2)));
    e.verify(vec![bracket, zero]);
    stream.push(&[0u8; 8], &[0, 0, 0, 0, 0, 0, 0, 0], ms(3));
    e.emit_all(stream.read(ms(3)));
    e.verify(vec![bracket, zero, zero]);
    e.emit_all(stream.read(ms(4)));
    e.verify(vec![bracket, zero, zero, zero]);
}

#[test]
fn empty_read_emits_the_current_report() {
    let mut stream = KeyStream::new();
    assert_eq!(stream.read(ms(0)), vec![[0u8; 8]]);
    assert!(!stream.requests_reset());
}

#[test]
fn layer_modifier_changes_the_map() {
    let mut stream = KeyStream::new();
    // 0x42 is MOD1 on the base layer; with it held, 0x12 types U.
    stream.push(&[0x42, 0, 0, 0, 0, 0, 0, 0], &[0u8; 8], ms(0));
    let out = stream.read(ms(1));
    assert_eq!(out, vec![[0u8; 8]]);
    stream.push(&[0x42, 0x12, 0, 0, 0, 0, 0, 0], &[0u8; 8], ms(2));
    assert_eq!(stream.read(ms(3)), vec![[0, 0, KBD_U, 0, 0, 0, 0, 0]]);
    // Releasing the layer key first still releases U when its key goes up.
    stream.push(&[0x12, 0, 0, 0, 0, 0, 0, 0], &[0u8; 8], ms(4));
    stream.push(&[0u8; 8], &[0u8; 8], ms(5));
    assert_eq!(stream.read(ms(6)), vec![[0u8; 8]]);
}

#[test]
fn modifier_key_and_unknown_positions() {
    let mut stream = KeyStream::new();
    // 0x21 is Ctrl; 0x17 and 0x00 are no positions of the keyboard.
    stream.push(&[0x21, 0x17, 0, 0, 0, 0, 0, 0], &[0x22, 0, 0, 0, 0, 0, 0, 0], ms(0));
    assert_eq!(
        stream.read(ms(1)),
        vec![
            [KBD_MODIFIER_LEFT_CTRL, 0, 0, 0, 0, 0, 0, 0],
            [KBD_MODIFIER_LEFT_CTRL, 0, KBD_A, 0, 0, 0, 0, 0],
        ]
    );
}

#[test]
fn seven_keys_down_report_six() {
    let mut stream = KeyStream::new();
    // Q W E R T and A S: seven keycodes, none in a combo.
    stream.push(&[0x12, 0x13, 0x14, 0x15, 0x16, 0x22, 0x23, 0], &[0u8; 8], ms(0));
    let out = stream.read(ms(1));
    assert_eq!(out.len(), 7);
    assert_eq!(out[6], out[5]);
    assert_eq!(out[5][2..8], [20, 26, 8, 21, 23, 4]);
}

#[test]
fn combo_across_counter_wrap() {
    // The count of clk wraps from 0xffff to 0 between the two scans.
    let base: u32 = 0xffff_0000;
    let mut stream = KeyStream::new();
    let bracket = [0, 0, KBD_JP_CLOSE_BRACKET, 0, 0, 0, 0, 0];
    stream.push(&[0u8; 8], &[0xa5, 0, 0, 0, 0, 0, 0, 0], base);
    assert!(stream.read(base).is_empty());
    stream.push(&[0u8; 8], &[0xa5, 0xa6, 0, 0, 0, 0, 0, 0], base.wrapping_add(2 << 16));
    assert_eq!(stream.read(base.wrapping_add(3 << 16)), vec![bracket]);
}

#[test]
fn only_transitions_make_events() {
    let mut stream = KeyStream::new();
    let a = [0, 0, KBD_A, 0, 0, 0, 0, 0];
    // Held across two scans: one Down event, one report.
    stream.push(&[0x22, 0, 0, 0, 0, 0, 0, 0], &[0u8; 8], ms(0));
    stream.push(&[0x22, 0, 0, 0, 0, 0, 0, 0], &[0x22, 0, 0, 0, 0, 0, 0, 0], ms(1));
    assert_eq!(stream.read(ms(2)), vec![a]);
    // Still held: no event, so the current report is repeated once.
    stream.push(&[0x22, 0, 0, 0, 0, 0, 0, 0], &[0u8; 8], ms(3));
    assert_eq!(stream.read(ms(4)), vec![a]);
    // Released and pressed again between two reads: Up then Down.
    stream.push(&[0u8; 8], &[0u8; 8], ms(5));
    stream.push(&[0x22, 0, 0, 0, 0, 0, 0, 0], &[0u8; 8], ms(6));
    assert_eq!(stream.read(ms(7)), vec![a]);
    stream.push(&[0u8; 8], &[0u8; 8], ms(8));
    assert_eq!(stream.read(ms(9)), vec![[0u8; 8]]);
}

fn cnt(clk: u32) -> u16 {
    (clk >> 16) as u16
}

#[test]
fn fired_combo_consumes_two_events() {
    let mut stream = KeyStream::new();
    stream.push(&[0u8; 8], &[0xa5, 0xa6, 0, 0, 0, 0, 0, 0], ms(0));
    let ev = stream.peek_event(0).unwrap();
    assert_eq!(ev.pos, 0xa5);
    assert_eq!(ev.action, Action::Down);
    assert_eq!(
        stream.process_combo_keys(cnt(ms(1)), &ev),
        ComboKeyResult::ProcessCombo { command: Command::KeyPress { kc: KBD_JP_CLOSE_BRACKET } }
    );
    let (out, consumed) = stream.proc_event(cnt(ms(1)), ev);
    assert!(consumed);
    assert_eq!(out, Some([0, 0, KBD_JP_CLOSE_BRACKET, 0, 0, 0, 0, 0]));
    assert!(stream.peek_event(0).is_none());
}

#[test]
fn lone_and_waiting_events_consume_one_and_none() {
    let mut stream = KeyStream::new();
    stream.push(&[0x22, 0, 0, 0, 0, 0, 0, 0], &[0xa5, 0, 0, 0, 0, 0, 0, 0], ms(0));
    // A (0x22) comes first in scan order and stands alone.
    let ev = stream.peek_event(0).unwrap();
    assert_eq!(ev.pos, 0x22);
    assert_eq!(stream.process_combo_keys(cnt(ms(1)), &ev), ComboKeyResult::NotCombo);
    assert_eq!(stream.proc_event(cnt(ms(1)), ev), (Some([0, 0, KBD_A, 0, 0, 0, 0, 0]), true));
    // 0xa5 waits for a partner: nothing is consumed.
    let ev = stream.peek_event(0).unwrap();
    assert_eq!(ev.pos, 0xa5);
    assert_eq!(stream.process_combo_keys(cnt(ms(1)), &ev), ComboKeyResult::Wait);
    assert_eq!(stream.proc_event(cnt(ms(1)), ev), (None, false));
    assert_eq!(stream.peek_event(0), Some(ev));
    assert!(stream.peek_event(1).is_none());
    // Its release: one Up event, consumed without a report.
    stream.push(&[0x22, 0, 0, 0, 0, 0, 0, 0], &[0u8; 8], ms(2));
    let up = stream.peek_event(1).unwrap();
    assert_eq!(up.action, Action::Up);
    assert_eq!(
        stream.proc_event(cnt(ms(3)), ev),
        (Some([0, 0, KBD_A, KBD_JP_SEMICOLON, 0, 0, 0, 0]), true)
    );
    assert_eq!(stream.proc_event(cnt(ms(3)), up), (None, true));
    assert!(stream.peek_event(0).is_none());
}
