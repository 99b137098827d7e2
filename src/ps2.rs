//! Decoding of the PS/2 keyboard's scan codes into key events, and the
//! queue that carries them from the interrupt handler to normal code.
use vstd::prelude::*;
use crate::circular_buffer::{CircularBuffer, keep_last};

verus! {

/// Scan code that announces the release of the key whose code follows.
pub const RELEASE_PREFIX: u8 = 0xF0;

/// Slots of the keyboard's event queue.
pub const INPUT_SLOTS: usize = 8;

/// Keys the kernel tells apart.
#[derive(PartialEq, Eq, Structural, Clone, Copy, Debug)]
pub enum KeyCode {
    KeyA,
    KeyW,
    KeyS,
    KeyD,
    Unknown,
}

/// Whether a key went down or came up.
#[derive(PartialEq, Eq, Structural, Clone, Copy, Debug)]
pub enum KeyState {
    Pressed,
    Released,
}

/// One key event.
#[derive(PartialEq, Eq, Structural, Clone, Copy, Debug)]
pub struct KeyboardInput {
    pub key_code: KeyCode,
    pub state: KeyState,
}

/// A byte read from the keyboard's data port.
#[derive(Clone, Copy, Debug)]
pub struct ScanCode(pub u8);

/// The key that a scan code (set 2) names.
pub open spec fn key_code_of(code: u8) -> KeyCode {
    if code == 0x1C {
        KeyCode::KeyA
    } else if code == 0x1D {
        KeyCode::KeyW
    } else if code == 0x1B {
        KeyCode::KeyS
    } else if code == 0x23 {
        KeyCode::KeyD
    } else {
        KeyCode::Unknown
    }
}

impl KeyCode {
    pub fn from_scan_code(value: ScanCode) -> (r: Self)
        ensures
            r == key_code_of(value.0),
    {
        match value.0 {
            0x1C => KeyCode::KeyA,
            0x1D => KeyCode::KeyW,
            0x1B => KeyCode::KeyS,
            0x23 => KeyCode::KeyD,
            _ => KeyCode::Unknown,
        }
    }
}

/// The event that the byte `data` makes after the byte `last`: none for
/// the release prefix itself; otherwise a release when the prefix came
/// just before, and a press when it did not.
pub open spec fn decode(last: u8, data: u8) -> Option<KeyboardInput> {
    if data == RELEASE_PREFIX {
        None
    } else {
        Some(
            KeyboardInput {
                key_code: key_code_of(data),
                state: if last == RELEASE_PREFIX {
                    KeyState::Released
                } else {
                    KeyState::Pressed
                },
            },
        )
    }
}

/// The keyboard's decoder state and its queue of events not yet read.
pub struct Ps2Keyboard {
    input: CircularBuffer<KeyboardInput>,
    last_scan_code: u8,
}

impl Ps2Keyboard {
    /// Events not yet read, oldest first.
    pub closed spec fn pending(&self) -> Seq<KeyboardInput> {
        self.input@
    }

    /// The byte the handler saw last.
    pub closed spec fn last_byte(&self) -> u8 {
        self.last_scan_code
    }

    pub closed spec fn wf(&self) -> bool {
        self.input.wf() && self.input.capacity() == INPUT_SLOTS
    }

    pub fn new() -> (r: Self)
        ensures
            r.wf(),
            r.pending() == Seq::<KeyboardInput>::empty(),
            r.last_byte() == 0,
    {
        Ps2Keyboard { input: CircularBuffer::new(INPUT_SLOTS), last_scan_code: 0 }
    }

    /// What the interrupt handler does with a byte from the data port:
    /// decode it and queue the event, dropping the oldest one when the
    /// queue is full.
    pub fn handle_scan_code(&mut self, data: u8)
        requires
            old(self).wf(),
        ensures
            final(self).wf(),
            final(self).last_byte() == data,
            final(self).pending() == match decode(old(self).last_byte(), data) {
                Some(e) => keep_last(old(self).pending().push(e), INPUT_SLOTS - 1),
                None => old(self).pending(),
            },
    {
        if data == RELEASE_PREFIX {
            self.last_scan_code = RELEASE_PREFIX;
            return;
        }
        let state = if self.last_scan_code == RELEASE_PREFIX {
            KeyState::Released
        } else {
            KeyState::Pressed
        };
        let key_code = KeyCode::from_scan_code(ScanCode(data));
        self.last_scan_code = data;
        self.input.write(KeyboardInput { key_code, state });
    }

    /// Takes every queued event, oldest first.
    pub fn read_input_with(&mut self) -> (r: Vec<KeyboardInput>)
        requires
            old(self).wf(),
        ensures
            final(self).wf(),
            r@ == old(self).pending(),
            final(self).pending() == Seq::<KeyboardInput>::empty(),
            final(self).last_byte() == old(self).last_byte(),
    {
        let mut r: Vec<KeyboardInput> = Vec::new();
        loop
            invariant
                self.wf(),
                r@ + self.pending() == old(self).pending(),
                self.last_byte() == old(self).last_byte(),
            decreases self.pending().len(),
        {
            let ghost before = self.pending();
            match self.input.read() {
                Some(input) => {
                    r.push(input);
                    assert(r@ + self.pending() =~= old(self).pending()) by {
                        assert(before =~= seq![input] + before.drop_first());
                    }
                },
                None => {
                    assert(r@ + self.pending() =~= r@);
                    return r;
                },
            }
        }
    }
}

/// Controller configuration for the self tests: interrupts of the first
/// port (bit 0), its clock-disable bit (bit 4) and scan-code translation
/// (bit 6) cleared, everything else kept.
pub fn init_config(config: u8) -> (r: u8)
    ensures
        r == config & !0x51u8,
{
    let r = config & !1u8 & !(1u8 << 6u8) & !(1u8 << 4u8);
    assert(config & !1u8 & !(1u8 << 6u8) & !(1u8 << 4u8) == config & !0x51u8) by (bit_vector);
    r
}

/// Controller configuration with interrupts of the first port enabled.
pub fn enable_interrupts_config(config: u8) -> (r: u8)
    ensures
        r == config | 1,
{
    config | 1
}

/// Reply of the controller's self test when it passed.
pub const SELF_TEST_PASSED: u8 = 0x55;

/// Reply of the first port's test when it passed.
pub const PORT_TEST_PASSED: u8 = 0x00;

/// A device's acknowledgement of a command.
pub const ACK: u8 = 0xFA;

/// Keyboards told apart by their identity bytes.
#[derive(PartialEq, Eq, Structural, Clone, Copy, Debug)]
pub enum KeyboardKind {
    Mf2,
    Unknown,
}

/// The kind of keyboard whose identity bytes are `first` and `second`.
pub fn identify(first: u8, second: u8) -> (r: KeyboardKind)
    ensures
        r == (if first == 0xAB && second == 0x83 {
            KeyboardKind::Mf2
        } else {
            KeyboardKind::Unknown
        }),
{
    if first == 0xAB && second == 0x83 {
        KeyboardKind::Mf2
    } else {
        KeyboardKind::Unknown
    }
}

} // verus!
