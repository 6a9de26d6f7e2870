use tuicore::decode::{decode, DecodedEvent, Modifiers, NamedKey};
use tuicore::segment::{csi_sequence_length, try_extract_event, Segmenter};
use tuicore::text::utf8_char_width;

fn none() -> Modifiers {
    Modifiers { shift: false, alt: false, control: false }
}

#[test]
fn lone_esc_is_flushed_after_the_timeout() {
    let mut s = Segmenter::new(35);
    s.push_byte(0x1B, 1000);
    assert_eq!(s.next_ready(1000), None);
    assert_eq!(s.next_ready(1034), None);
    let ev = s.next_ready(1035).expect("flushed");
    assert_eq!(ev, vec![0x1B]);
    assert_eq!(decode(&ev), DecodedEvent::Named(NamedKey::Esc, none()));
    assert_eq!(s.next_ready(5000), None);
    assert!(!s.has_pending());
}

#[test]
fn escape_sequence_within_timeout_is_one_event() {
    let mut s = Segmenter::new(35);
    s.push_byte(0x1B, 0);
    assert_eq!(s.next_ready(10), None);
    s.push_byte(b'[', 10);
    assert_eq!(s.next_ready(20), None);
    s.push_byte(b'A', 20);
    let ev = s.next_ready(20).expect("complete");
    assert_eq!(ev, vec![0x1B, b'[', b'A']);
    assert_eq!(decode(&ev), DecodedEvent::Named(NamedKey::Up, none()));
    assert_eq!(s.next_ready(10_000), None);
}

#[test]
fn utf8_pair_given_byte_by_byte_is_one_character() {
    let mut s = Segmenter::new(35);
    s.push_byte(0xC3, 0);
    assert_eq!(s.next_ready(0), None);
    assert_eq!(s.next_ready(100_000), None);
    assert!(s.has_pending());
    s.push_byte(0xA9, 100_001);
    let ev = s.next_ready(100_001).expect("complete");
    assert_eq!(ev, vec![0xC3, 0xA9]);
    assert_eq!(decode(&ev), DecodedEvent::Char('\u{e9}', none()));
    assert_eq!(s.next_ready(200_000), None);
}

#[test]
fn events_come_out_in_arrival_order() {
    let mut s = Segmenter::new(35);
    for (i, b) in b"ab\x1b[Bc".iter().enumerate() {
        s.push_byte(*b, i as u64);
    }
    assert_eq!(s.pop_ready(), Some(vec![b'a']));
    assert_eq!(s.next_ready(10), Some(vec![b'b']));
    assert_eq!(s.next_ready(10), Some(vec![0x1B, b'[', b'B']));
    assert_eq!(s.next_ready(10), Some(vec![b'c']));
    assert_eq!(s.next_ready(10), None);
    assert_eq!(s.pop_ready(), None);
}

#[test]
fn pending_esc_waits_behind_nothing_and_keeps_later_events_queued() {
    let mut s = Segmenter::new(35);
    s.push_byte(b'x', 0);
    s.push_byte(0x1B, 1);
    assert_eq!(s.next_ready(100), Some(vec![b'x']));
    assert_eq!(s.next_ready(100), Some(vec![0x1B]));
}

#[test]
fn effective_timeout_is_cut_to_the_flush_deadline() {
    let mut s = Segmenter::new(35);
    assert_eq!(s.effective_timeout(100, 0), 100);
    s.push_byte(0x1B, 10);
    assert_eq!(s.effective_timeout(100, 20), 25);
    assert_eq!(s.effective_timeout(5, 20), 5);
    assert_eq!(s.effective_timeout(100, 45), 0);
    assert_eq!(s.effective_timeout(100, 5), 35);
    assert!(!s.should_flush_pending(44));
    assert!(s.should_flush_pending(45));
    let mut u = Segmenter::new(35);
    u.push_byte(0xE2, 0);
    assert_eq!(u.effective_timeout(100, 50), 100);
    assert!(!u.should_flush_pending(1000));
}

#[test]
fn unterminated_csi_is_cut_at_the_lookahead() {
    let mut s = Segmenter::new(35);
    s.push_byte(0x1B, 0);
    s.push_byte(b'[', 0);
    for _ in 0..61 {
        s.push_byte(b'1', 0);
    }
    assert_eq!(s.next_ready(0), None);
    s.push_byte(b'1', 0);
    let ev = s.next_ready(0).expect("cut at the lookahead");
    assert_eq!(ev.len(), 64);
    assert!(matches!(decode(&ev), DecodedEvent::Unrecognized(_)));
    s.push_byte(b'q', 0);
    assert_eq!(s.next_ready(0), Some(vec![b'q']));
}

#[test]
fn extraction_lengths() {
    assert_eq!(try_extract_event(&[]), None);
    assert_eq!(try_extract_event(b"a"), Some(1));
    assert_eq!(try_extract_event(b"\x1b"), None);
    assert_eq!(try_extract_event(b"\x1b["), None);
    assert_eq!(try_extract_event(b"\x1b[1;5"), None);
    assert_eq!(try_extract_event(b"\x1b[1;5Axyz"), Some(6));
    assert_eq!(try_extract_event(b"\x1bO"), None);
    assert_eq!(try_extract_event(b"\x1bOP"), Some(3));
    assert_eq!(try_extract_event(b"\x1ba"), Some(2));
    assert_eq!(try_extract_event(&[0x1B, 0xC3]), None);
    assert_eq!(try_extract_event(&[0x1B, 0xC3, 0xA9]), Some(3));
    assert_eq!(try_extract_event(&[0xE2, 0x82]), None);
    assert_eq!(try_extract_event(&[0xE2, 0x82, 0xAC]), Some(3));
    assert_eq!(try_extract_event(&[0xF0, 0x9F, 0x98, 0x80]), Some(4));
    assert_eq!(try_extract_event(&[0x80]), Some(1));
    assert_eq!(csi_sequence_length(b"\x1b[200~"), Some(6));
    assert_eq!(csi_sequence_length(b"\x1b["), None);
    let long = [b'9'; 70];
    let mut seq = vec![0x1B, b'['];
    seq.extend_from_slice(&long);
    assert_eq!(csi_sequence_length(&seq), Some(64));
    assert_eq!(csi_sequence_length(&seq[..63]), None);
}

#[test]
fn utf8_widths() {
    assert_eq!(utf8_char_width(b'a'), 1);
    assert_eq!(utf8_char_width(0xC3), 2);
    assert_eq!(utf8_char_width(0xE2), 3);
    assert_eq!(utf8_char_width(0xF0), 4);
    assert_eq!(utf8_char_width(0x80), 1);
    assert_eq!(utf8_char_width(0xF8), 1);
}
