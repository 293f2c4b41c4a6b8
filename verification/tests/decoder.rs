//! The escape-sequence decoder, byte by byte.

use kilo::ctrl_mask;
use kilo::Decoded;
use kilo::Decoder;
use kilo::Key;

fn decode_all(bytes: &[u8]) -> Vec<Decoded> {
    let mut d = Decoder::new();
    bytes.iter().map(|b| d.feed(*b)).collect()
}

fn last_decoded(bytes: &[u8]) -> Decoded {
    *decode_all(bytes).last().unwrap()
}

#[test]
fn page_up_sequence() {
    let out = decode_all(&[0x1b, b'[', b'5', b'~']);
    assert_eq!(
        out,
        vec![
            Decoded::Pending,
            Decoded::Pending,
            Decoded::Pending,
            Decoded::Key(Key::PageUp)
        ]
    );
}

#[test]
fn unknown_csi_final_is_unrecognized() {
    let out = decode_all(&[0x1b, b'[', b'Z']);
    assert_eq!(
        out,
        vec![Decoded::Pending, Decoded::Pending, Decoded::Unrecognized]
    );
}

#[test]
fn arrows() {
    assert_eq!(last_decoded(&[0x1b, b'[', b'A']), Decoded::Key(Key::ArrowUp));
    assert_eq!(last_decoded(&[0x1b, b'[', b'B']), Decoded::Key(Key::ArrowDown));
    assert_eq!(last_decoded(&[0x1b, b'[', b'C']), Decoded::Key(Key::ArrowRight));
    assert_eq!(last_decoded(&[0x1b, b'[', b'D']), Decoded::Key(Key::ArrowLeft));
}

#[test]
fn home_and_end_variants() {
    assert_eq!(last_decoded(&[0x1b, b'[', b'H']), Decoded::Key(Key::Home));
    assert_eq!(last_decoded(&[0x1b, b'[', b'F']), Decoded::Key(Key::End));
    assert_eq!(last_decoded(&[0x1b, b'O', b'H']), Decoded::Key(Key::Home));
    assert_eq!(last_decoded(&[0x1b, b'O', b'F']), Decoded::Key(Key::End));
    assert_eq!(last_decoded(&[0x1b, b'[', b'1', b'~']), Decoded::Key(Key::Home));
    assert_eq!(last_decoded(&[0x1b, b'[', b'7', b'~']), Decoded::Key(Key::Home));
    assert_eq!(last_decoded(&[0x1b, b'[', b'4', b'~']), Decoded::Key(Key::End));
    assert_eq!(last_decoded(&[0x1b, b'[', b'8', b'~']), Decoded::Key(Key::End));
}

#[test]
fn paging_and_delete() {
    assert_eq!(last_decoded(&[0x1b, b'[', b'5', b'~']), Decoded::Key(Key::PageUp));
    assert_eq!(last_decoded(&[0x1b, b'[', b'6', b'~']), Decoded::Key(Key::PageDown));
    assert_eq!(last_decoded(&[0x1b, b'[', b'3', b'~']), Decoded::Key(Key::Delete));
}

#[test]
fn unmapped_digit_is_unrecognized() {
    assert_eq!(last_decoded(&[0x1b, b'[', b'2', b'~']), Decoded::Unrecognized);
    assert_eq!(last_decoded(&[0x1b, b'[', b'9', b'~']), Decoded::Unrecognized);
}

#[test]
fn digit_without_tilde_is_unrecognized() {
    assert_eq!(last_decoded(&[0x1b, b'[', b'5', b'x']), Decoded::Unrecognized);
}

#[test]
fn unknown_introducer_swallows_one_byte_then_drops() {
    let out = decode_all(&[0x1b, b'x', b'y', b'q']);
    assert_eq!(
        out,
        vec![
            Decoded::Pending,
            Decoded::Pending,
            Decoded::Unrecognized,
            Decoded::Plain(b'q')
        ]
    );
}

#[test]
fn unknown_esc_o_final_is_unrecognized() {
    assert_eq!(last_decoded(&[0x1b, b'O', b'Q']), Decoded::Unrecognized);
}

#[test]
fn plain_bytes_pass_through() {
    let out = decode_all(b"hi");
    assert_eq!(out, vec![Decoded::Plain(b'h'), Decoded::Plain(b'i')]);
}

#[test]
fn decoder_returns_to_ground_between_sequences() {
    let out = decode_all(&[0x1b, b'[', b'A', 0x1b, b'[', b'B']);
    assert_eq!(out[2], Decoded::Key(Key::ArrowUp));
    assert_eq!(out[5], Decoded::Key(Key::ArrowDown));
}

#[test]
fn ctrl_mask_maps_to_control_bytes() {
    assert_eq!(ctrl_mask(b'c'), 3);
    assert_eq!(ctrl_mask(b'a'), 1);
    assert_eq!(ctrl_mask(b'z'), 26);
}
