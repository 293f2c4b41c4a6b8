//! Streaming decoder for terminal key input.
//!
//! Input arrives one byte at a time. A byte outside an escape sequence is a
//! plain character; an escape byte opens a multi-byte sequence whose grammar
//! is tracked by an explicit state machine, one transition per byte.

use vstd::prelude::*;

verus! {

/// A key named by a recognized escape sequence.
#[derive(Clone, Copy, Debug, PartialEq, Eq, Structural)]
pub enum Key {
    ArrowUp,
    ArrowDown,
    ArrowLeft,
    ArrowRight,
    PageUp,
    PageDown,
    Home,
    End,
    Delete,
}

/// What one input byte amounts to once the decoder has consumed it.
#[derive(Clone, Copy, Debug, PartialEq, Eq, Structural)]
pub enum Decoded {
    /// The byte starts or continues an escape sequence; nothing to report yet.
    Pending,
    /// A plain byte outside any escape sequence.
    Plain(u8),
    /// A completed escape sequence naming a key.
    Key(Key),
    /// A completed escape sequence that names no recognized key; it is dropped.
    Unrecognized,
}

/// Where the decoder stands inside the escape-sequence grammar.
#[derive(Clone, Copy, Debug, PartialEq, Eq, Structural)]
pub enum DecoderState {
    /// Outside any escape sequence.
    Ground,
    /// An escape byte was just consumed.
    Esc,
    /// Escape then `[`.
    Csi,
    /// Escape then `O`.
    EscO,
    /// Escape, `[`, then an ASCII digit; only a `~` completes the sequence.
    CsiDigit(u8),
    /// Escape then an unknown introducer; one more byte is consumed, then the
    /// whole sequence is dropped as unrecognized.
    Junk,
}

/// The byte a control-key chord produces: the character with all but its five
/// low bits cleared.
pub fn ctrl_mask(c: u8) -> (r: u8)
    ensures
        r == (c & 0x1f),
{
    c & 0x1f
}

pub open spec fn is_ascii_digit(b: u8) -> bool {
    48 <= b <= 57
}

/// The key named by `ESC [ <d> ~` for a digit `d`.
pub open spec fn csi_tilde_key(d: u8) -> Option<Key> {
    if d == 49 || d == 55 {
        Some(Key::Home)
    } else if d == 52 || d == 56 {
        Some(Key::End)
    } else if d == 51 {
        Some(Key::Delete)
    } else if d == 53 {
        Some(Key::PageUp)
    } else if d == 54 {
        Some(Key::PageDown)
    } else {
        None
    }
}

/// The key named by `ESC [ <b>` for a non-digit final byte `b`.
pub open spec fn csi_final_key(b: u8) -> Option<Key> {
    if b == 65 {
        Some(Key::ArrowUp)
    } else if b == 66 {
        Some(Key::ArrowDown)
    } else if b == 67 {
        Some(Key::ArrowRight)
    } else if b == 68 {
        Some(Key::ArrowLeft)
    } else if b == 72 {
        Some(Key::Home)
    } else if b == 70 {
        Some(Key::End)
    } else {
        None
    }
}

/// The key named by `ESC O <b>`.
pub open spec fn esc_o_key(b: u8) -> Option<Key> {
    if b == 72 {
        Some(Key::Home)
    } else if b == 70 {
        Some(Key::End)
    } else {
        None
    }
}

pub open spec fn key_or_unrecognized(k: Option<Key>) -> Decoded {
    match k {
        Some(key) => Decoded::Key(key),
        None => Decoded::Unrecognized,
    }
}

/// The decoder's transition table: from a state and one input byte to the
/// next state and what that byte amounted to.
pub open spec fn spec_feed(st: DecoderState, b: u8) -> (DecoderState, Decoded) {
    match st {
        DecoderState::Ground => if b == 0x1b {
            (DecoderState::Esc, Decoded::Pending)
        } else {
            (DecoderState::Ground, Decoded::Plain(b))
        },
        DecoderState::Esc => if b == 91 {
            (DecoderState::Csi, Decoded::Pending)
        } else if b == 79 {
            (DecoderState::EscO, Decoded::Pending)
        } else {
            (DecoderState::Junk, Decoded::Pending)
        },
        DecoderState::Junk => (DecoderState::Ground, Decoded::Unrecognized),
        DecoderState::Csi => if is_ascii_digit(b) {
            (DecoderState::CsiDigit(b), Decoded::Pending)
        } else {
            (DecoderState::Ground, key_or_unrecognized(csi_final_key(b)))
        },
        DecoderState::EscO => (DecoderState::Ground, key_or_unrecognized(esc_o_key(b))),
        DecoderState::CsiDigit(d) => if b == 126 {
            (DecoderState::Ground, key_or_unrecognized(csi_tilde_key(d)))
        } else {
            (DecoderState::Ground, Decoded::Unrecognized)
        },
    }
}

/// The escape-sequence decoder. It is stateless between complete sequences:
/// after every emitted `Plain`, `Key` or `Unrecognized` it stands in `Ground`
/// again.
pub struct Decoder {
    pub state: DecoderState,
}

impl Decoder {
    /// A fresh decoder, outside any escape sequence.
    pub fn new() -> (d: Decoder)
        ensures
            d.state == DecoderState::Ground,
    {
        Decoder { state: DecoderState::Ground }
    }

    /// Consume one input byte and report what it amounted to.
    pub fn feed(&mut self, b: u8) -> (out: Decoded)
        ensures
            (final(self).state, out) == spec_feed(old(self).state, b),
    {
        match self.state {
            DecoderState::Ground => {
                if b == 0x1b {
                    self.state = DecoderState::Esc;
                    Decoded::Pending
                } else {
                    Decoded::Plain(b)
                }
            },
            DecoderState::Esc => {
                if b == 91 {
                    self.state = DecoderState::Csi;
                } else if b == 79 {
                    self.state = DecoderState::EscO;
                } else {
                    self.state = DecoderState::Junk;
                }
                Decoded::Pending
            },
            DecoderState::Junk => {
                self.state = DecoderState::Ground;
                Decoded::Unrecognized
            },
            DecoderState::Csi => {
                if 48 <= b && b <= 57 {
                    self.state = DecoderState::CsiDigit(b);
                    Decoded::Pending
                } else {
                    self.state = DecoderState::Ground;
                    let k = if b == 65 {
                        Some(Key::ArrowUp)
                    } else if b == 66 {
                        Some(Key::ArrowDown)
                    } else if b == 67 {
                        Some(Key::ArrowRight)
                    } else if b == 68 {
                        Some(Key::ArrowLeft)
                    } else if b == 72 {
                        Some(Key::Home)
                    } else if b == 70 {
                        Some(Key::End)
                    } else {
                        None
                    };
                    match k {
                        Some(key) => Decoded::Key(key),
                        None => Decoded::Unrecognized,
                    }
                }
            },
            DecoderState::EscO => {
                self.state = DecoderState::Ground;
                if b == 72 {
                    Decoded::Key(Key::Home)
                } else if b == 70 {
                    Decoded::Key(Key::End)
                } else {
                    Decoded::Unrecognized
                }
            },
            DecoderState::CsiDigit(d) => {
                self.state = DecoderState::Ground;
                if b == 126 {
                    let k = if d == 49 || d == 55 {
                        Some(Key::Home)
                    } else if d == 52 || d == 56 {
                        Some(Key::End)
                    } else if d == 51 {
                        Some(Key::Delete)
                    } else if d == 53 {
                        Some(Key::PageUp)
                    } else if d == 54 {
                        Some(Key::PageDown)
                    } else {
                        None
                    };
                    match k {
                        Some(key) => Decoded::Key(key),
                        None => Decoded::Unrecognized,
                    }
                } else {
                    Decoded::Unrecognized
                }
            },
        }
    }
}

} // verus!
