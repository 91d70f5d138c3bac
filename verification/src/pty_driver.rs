//! The session driver's part in input: which bytes a key event stands for.

use vstd::prelude::*;

verus! {

/// The host's code of the escape key.
pub const KEY_ESCAPE: i64 = 16777217;

/// The host's code of the tab key.
pub const KEY_TAB: i64 = 16777218;

/// The host's code of the backspace key.
pub const KEY_BACKSPACE: i64 = 16777220;

/// The host's code of the enter key.
pub const KEY_ENTER: i64 = 16777221;

/// The host's code of the space bar.
pub const KEY_SPACE: i64 = 32;

/// A key as the host reports it.
#[derive(Clone, Copy, Debug, PartialEq, Eq)]
pub struct KeyEvent {
    /// The host's code of the key.
    pub scancode: i64,
    /// The code point that the key stands for, 0 where it stands for none.
    pub unicode: i64,
}

/// An input event as the host reports it.
#[derive(Clone, Copy, Debug, PartialEq, Eq)]
pub struct InputEvent {
    /// Whether the event is a press, not a release.
    pub pressed: bool,
    /// The key, where the event is one of the keyboard.
    pub key: Option<KeyEvent>,
}

impl InputEvent {
    /// Whether the event is the press of a key.
    pub open spec fn spec_is_key_press(&self) -> bool {
        self.pressed && self.key is Some
    }

    /// Tells whether the event is the press of a key: such an event is the
    /// terminal's, whether or not it stands for any bytes.
    #[verifier::when_used_as_spec(spec_is_key_press)]
    pub fn is_key_press(&self) -> (is_press: bool)
        ensures
            is_press == self.is_key_press(),
    {
        self.pressed && self.key.is_some()
    }
}

/// The byte of a key that has one of its own.
pub open spec fn control_byte(scancode: i64) -> Option<u8> {
    if scancode == KEY_BACKSPACE {
        Some(8u8)
    } else if scancode == KEY_ENTER {
        Some(10u8)
    } else if scancode == KEY_SPACE {
        Some(32u8)
    } else if scancode == KEY_ESCAPE {
        Some(27u8)
    } else if scancode == KEY_TAB {
        Some(9u8)
    } else {
        None
    }
}

/// How many bytes a code point is sent in: the least number that holds its
/// value, and no more than four. A value below 1 has none.
pub open spec fn byte_count(code_point: int) -> nat {
    if code_point <= 0 {
        0
    } else if code_point < 0x100 {
        1
    } else if code_point < 0x1_0000 {
        2
    } else if code_point < 0x100_0000 {
        3
    } else {
        4
    }
}

/// The weight of byte `i` in a little-endian number: 256 to the power `i`,
/// for the four bytes that are sent.
pub open spec fn byte_weight(i: int) -> int {
    if i <= 0 {
        1
    } else if i == 1 {
        0x100
    } else if i == 2 {
        0x1_0000
    } else {
        0x100_0000
    }
}

/// The bytes of a code point, least significant first.
pub open spec fn code_point_bytes(code_point: int) -> Seq<u8> {
    Seq::new(byte_count(code_point), |i: int| ((code_point / byte_weight(i)) % 0x100) as u8)
}

/// The bytes that a key stands for, if it stands for any: its own byte where
/// it has one, else the bytes of its code point, and nothing where that is 0.
pub open spec fn key_bytes(key: KeyEvent) -> Option<Seq<u8>> {
    match control_byte(key.scancode) {
        Some(byte) => Some(seq![byte]),
        None => if key.unicode == 0 {
            None
        } else {
            Some(code_point_bytes(key.unicode as int))
        },
    }
}

/// The bytes that an input event stands for: those of its key where it is the
/// press of one, else none.
pub open spec fn input_bytes(event: InputEvent) -> Option<Seq<u8>> {
    match event.key {
        Some(key) => if event.pressed {
            key_bytes(key)
        } else {
            None
        },
        None => None,
    }
}

/// What a chunk of bytes holds, if there is one.
pub open spec fn chunk_view(chunk: Option<Vec<u8>>) -> Option<Seq<u8>> {
    match chunk {
        Some(bytes) => Some(bytes@),
        None => None,
    }
}

/// The bytes to send for a key, if any.
pub fn encode_key(key: &KeyEvent) -> (chunk: Option<Vec<u8>>)
    ensures
        chunk_view(chunk) == key_bytes(*key),
{
    let code: i64 = key.scancode;
    let mut bytes: Vec<u8> = Vec::new();
    if code == KEY_BACKSPACE {
        bytes.push(8u8);
    } else if code == KEY_ENTER {
        bytes.push(10u8);
    } else if code == KEY_SPACE {
        bytes.push(32u8);
    } else if code == KEY_ESCAPE {
        bytes.push(27u8);
    } else if code == KEY_TAB {
        bytes.push(9u8);
    } else {
        let code_point: i64 = key.unicode;
        if code_point == 0 {
            return None;
        }
        if code_point > 0 {
            let value: u64 = code_point as u64;
            let count: u64 = if value < 0x100 {
                1
            } else if value < 0x1_0000 {
                2
            } else if value < 0x100_0000 {
                3
            } else {
                4
            };
            assert(value & 0xFF == value % 0x100) by (bit_vector);
            assert((value >> 8) & 0xFF == (value / 0x100) % 0x100) by (bit_vector);
            assert((value >> 16) & 0xFF == (value / 0x1_0000) % 0x100) by (bit_vector);
            assert((value >> 24) & 0xFF == (value / 0x100_0000) % 0x100) by (bit_vector);
            bytes.push((value & 0xFF) as u8);
            if count > 1 {
                bytes.push(((value >> 8) & 0xFF) as u8);
            }
            if count > 2 {
                bytes.push(((value >> 16) & 0xFF) as u8);
            }
            if count > 3 {
                bytes.push(((value >> 24) & 0xFF) as u8);
            }
        }
        assert(bytes@ =~= code_point_bytes(code_point as int));
        return Some(bytes);
    }
    assert(bytes@ =~= seq![control_byte(code)->0]);
    Some(bytes)
}

/// The driver of one terminal session, as far as input goes: it turns key
/// events into bytes for the engine until the engine is found gone.
pub struct PtyDriver {
    closed: bool,
}

impl PtyDriver {
    /// Whether the engine was found gone. A closed session stays closed.
    pub closed spec fn spec_is_closed(&self) -> bool {
        self.closed
    }

    /// The driver of a new session.
    pub fn new() -> (driver: PtyDriver)
        ensures
            !driver.is_closed(),
    {
        PtyDriver { closed: false }
    }

    /// Tells whether the engine was found gone.
    #[verifier::when_used_as_spec(spec_is_closed)]
    pub fn is_closed(&self) -> (closed: bool)
        ensures
            closed == self.is_closed(),
    {
        self.closed
    }

    /// The bytes to submit to the engine for an input event, if any: those
    /// that the event stands for, and none once the session is closed.
    pub fn on_input(&mut self, event: InputEvent) -> (chunk: Option<Vec<u8>>)
        ensures
            final(self).is_closed() == old(self).is_closed(),
            chunk_view(chunk) == if old(self).is_closed() {
                None
            } else {
                input_bytes(event)
            },
    {
        if self.closed || !event.pressed {
            return None;
        }
        match event.key {
            Some(key) => encode_key(&key),
            None => None,
        }
    }

    /// Records that a chunk could not be submitted because the engine is
    /// gone: the session is closed from then on.
    pub fn submit_failed(&mut self)
        ensures
            final(self).is_closed(),
    {
        self.closed = true;
    }
}

/// Each key with a byte of its own sends that one byte, whatever code point
/// comes with it.
pub proof fn lemma_control_keys(unicode: i64)
    ensures
        key_bytes(KeyEvent { scancode: KEY_BACKSPACE, unicode }) == Some(seq![8u8]),
        key_bytes(KeyEvent { scancode: KEY_ENTER, unicode }) == Some(seq![10u8]),
        key_bytes(KeyEvent { scancode: KEY_SPACE, unicode }) == Some(seq![32u8]),
        key_bytes(KeyEvent { scancode: KEY_ESCAPE, unicode }) == Some(seq![27u8]),
        key_bytes(KeyEvent { scancode: KEY_TAB, unicode }) == Some(seq![9u8]),
{
}

/// A key without a byte of its own that reports the code point 0 sends
/// nothing.
pub proof fn lemma_zero_code_point(scancode: i64)
    requires
        control_byte(scancode) is None,
    ensures
        key_bytes(KeyEvent { scancode, unicode: 0 }) is None,
        forall|pressed: bool|
            input_bytes(
                InputEvent { pressed, key: Some(KeyEvent { scancode, unicode: 0 }) },
            ) is None,
{
}

/// The number that a chunk of up to four bytes stands for, least significant
/// byte first.
pub open spec fn little_endian_value(bytes: Seq<u8>) -> int {
    (if bytes.len() > 0 {
        bytes[0] * byte_weight(0)
    } else {
        0
    }) + (if bytes.len() > 1 {
        bytes[1] * byte_weight(1)
    } else {
        0
    }) + (if bytes.len() > 2 {
        bytes[2] * byte_weight(2)
    } else {
        0
    }) + (if bytes.len() > 3 {
        bytes[3] * byte_weight(3)
    } else {
        0
    })
}

/// The four low bytes of a number, each at its weight, add up to the number
/// cut to four bytes.
proof fn lemma_low_bytes(value: u64)
    by (bit_vector)
    ensures
        (value % 0x100) + ((value / 0x100) % 0x100) * 0x100 + ((value / 0x1_0000) % 0x100)
            * 0x1_0000 + ((value / 0x100_0000) % 0x100) * 0x100_0000 == value % 0x1_0000_0000,
        value < 0x100 ==> value % 0x100 == value,
        0x100 <= value < 0x1_0000 ==> (value / 0x100) % 0x100 == value / 0x100 && value / 0x100
            >= 1 && (value % 0x100) + (value / 0x100) * 0x100 == value,
        0x1_0000 <= value < 0x100_0000 ==> (value / 0x1_0000) % 0x100 == value / 0x1_0000
            && value / 0x1_0000 >= 1 && (value % 0x100) + ((value / 0x100) % 0x100) * 0x100 + (
        value / 0x1_0000) * 0x1_0000 == value,
        0x100_0000 <= value < 0x1_0000_0000 ==> (value / 0x100_0000) % 0x100 == value
            / 0x100_0000 && value / 0x100_0000 >= 1,
{
}

/// A key without a byte of its own that reports a code point above 0 sends
/// one to four bytes, least significant first: as many as hold the code
/// point and no more, so that the last byte is not 0. Read back as a number
/// they give the code point again. A value that four bytes cannot hold is
/// sent as its low four bytes.
pub proof fn lemma_code_point_bytes(code_point: i64)
    requires
        code_point > 0,
    ensures
        1 <= code_point_bytes(code_point as int).len() <= 4,
        forall|i: int|
            0 <= i < code_point_bytes(code_point as int).len() ==> #[trigger] code_point_bytes(
                code_point as int,
            )[i] == (code_point as int / byte_weight(i)) % 0x100,
        code_point < 0x1_0000_0000 ==> {
            &&& little_endian_value(code_point_bytes(code_point as int)) == code_point
            &&& code_point_bytes(code_point as int).last() != 0
            &&& code_point < 0x100 * byte_weight(
                code_point_bytes(code_point as int).len() - 1,
            )
            &&& code_point >= byte_weight(code_point_bytes(code_point as int).len() - 1)
        },
        little_endian_value(code_point_bytes(code_point as int)) == code_point % 0x1_0000_0000,
{
    let bytes = code_point_bytes(code_point as int);
    let value = code_point as u64;
    lemma_low_bytes(value);
    assert(bytes[0] == value % 0x100);
    if bytes.len() > 1 {
        assert(bytes[1] == (value / 0x100) % 0x100);
    }
    if bytes.len() > 2 {
        assert(bytes[2] == (value / 0x1_0000) % 0x100);
    }
    if bytes.len() > 3 {
        assert(bytes[3] == (value / 0x100_0000) % 0x100);
    }
    if bytes.len() == 1 {
        assert(little_endian_value(bytes) == value);
    } else if bytes.len() == 2 {
        assert(little_endian_value(bytes) == value);
    } else if bytes.len() == 3 {
        assert(little_endian_value(bytes) == value);
    } else {
        assert(little_endian_value(bytes) == value % 0x1_0000_0000);
    }
}

} // verus!
