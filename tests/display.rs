use lcd_button::counter::{rate_field, RateCounter, TickAction, RATE_FIELD_WIDTH};
use lcd_button::glyph::{accent_glyph, with_pixel, PatternMemory, HEART};
use lcd_button::monitor::{classify_edge, edge_report, EdgeSource, LineState};

#[test]
fn derived_glyph_keeps_base() {
    let mut mem = PatternMemory::new();
    mem.write_glyph(1, HEART);
    let base = mem.read_glyph(1);
    let derived = accent_glyph(base);
    mem.write_glyph(2, derived);
    assert_eq!(mem.read_glyph(1), HEART);
    let mut expected = HEART;
    expected[1] |= 0b100;
    expected[2] |= 0b100;
    assert_eq!(mem.read_glyph(2), expected);
    assert_eq!(mem.read_glyph(2)[1], 0b00100);
    assert_eq!(mem.read_glyph(2)[2], 0b01110);
    assert_eq!(mem.read_glyph(0), [0u8; 8]);
}

#[test]
fn derive_glyph_in_place() {
    let mut mem = PatternMemory::new();
    mem.write_glyph(1, HEART);
    mem.derive_glyph(1, 2);
    assert_eq!(mem.read_glyph(1), HEART);
    assert_eq!(mem.read_glyph(2), [0, 0b00100, 0b01110, 0b11111, 0b01110, 0b00100, 0, 0]);
}

#[test]
fn pixel_already_lit_stays() {
    let g = with_pixel(HEART, 3, 4);
    assert_eq!(g, HEART);
    let h = with_pixel([0u8; 8], 7, 7);
    assert_eq!(h[7], 0x80);
}

#[test]
fn press_level_not_edge_count() {
    let mut line = LineState::released();
    line.falling_edge();
    line.falling_edge();
    line.falling_edge();
    assert!(line.is_pressed());
    line.release();
    assert!(!line.is_pressed());
    assert!(line.interrupt_pending);
}

#[test]
fn edge_clears_flag_every_call() {
    let mut line = LineState::released();
    line.falling_edge();
    assert_eq!(line.on_edge(), EdgeSource::Button);
    assert!(!line.interrupt_pending);
    assert_eq!(line.on_edge(), EdgeSource::Other);
    assert!(!line.interrupt_pending);
    assert!(line.is_pressed());
}

#[test]
fn edge_reports() {
    assert_eq!(classify_edge(true), EdgeSource::Button);
    assert_eq!(classify_edge(false), EdgeSource::Other);
    assert_eq!(edge_report(EdgeSource::Button), "Button was the source of the interrupt");
    assert_eq!(edge_report(EdgeSource::Other), "Button was not the source of the interrupt");
}

#[test]
fn rate_field_pads_to_width() {
    assert_eq!(rate_field(2), b"2 Hz         ".to_vec());
    assert_eq!(rate_field(1234), b"1234 Hz      ".to_vec());
    assert_eq!(rate_field(0), b"0 Hz         ".to_vec());
    assert_eq!(rate_field(u32::MAX), b"4294967295 Hz".to_vec());
    assert_eq!(rate_field(98765).len(), RATE_FIELD_WIDTH);
}

#[test]
fn counter_ticks() {
    let mut c = RateCounter::new();
    assert_eq!(c.count(), 1);
    assert_eq!(c.tick(false), TickAction::Idle);
    assert_eq!(c.count(), 1);
    assert_eq!(c.tick(true), TickAction::Show(b"2 Hz         ".to_vec()));
    assert_eq!(c.tick(true), TickAction::Show(b"3 Hz         ".to_vec()));
    assert_eq!(c.count(), 3);
}
