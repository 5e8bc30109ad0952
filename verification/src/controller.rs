use vstd::prelude::*;
use crate::helper::{bit_of, get_bit};

verus! {

/// The keyboard keys that stand for the eight buttons of a standard controller;
/// any other key is `Other`.
#[derive(Clone, Copy, Debug, PartialEq, Eq, Structural)]
pub enum Key {
    O,
    P,
    I,
    U,
    W,
    S,
    A,
    D,
    Other,
}

/// A standard controller: an eight-bit button register that the CPU reads
/// one bit at a time, and a strobe latch that rewinds the reading.
pub struct Controller {
    pub reset: bool,
    pub register: u8,
    pub index: u8,
}

/// The bit of the button register that a key drives, or 0xFF for a key that drives none.
pub open spec fn spec_key_bit(key: Key) -> u8 {
    match key {
        Key::O => 0,
        Key::P => 1,
        Key::I => 2,
        Key::U => 3,
        Key::W => 4,
        Key::S => 5,
        Key::A => 6,
        Key::D => 7,
        Key::Other => 0xFF,
    }
}

/// A controller after the CPU writes `data` to its port.
pub open spec fn spec_controller_write(c: Controller, data: u8) -> Controller {
    let reset = data % 2 == 1;
    Controller { reset, register: c.register, index: if reset { 0 } else { c.index } }
}

/// A controller after one read of its port, and the bit that the read returns.
pub open spec fn spec_controller_read(c: Controller) -> (Controller, u8) {
    if c.index > 7 {
        (c, 1)
    } else {
        (
            Controller {
                reset: c.reset,
                register: c.register,
                index: if c.reset { c.index } else { (c.index + 1) as u8 },
            },
            bit_of(c.register, c.index),
        )
    }
}

/// The button register with the bit of `key` set (or unchanged for a key that drives no bit).
pub open spec fn spec_press(register: u8, key: Key) -> u8 {
    let k = spec_key_bit(key);
    if k > 7 { register } else { register | (1u8 << k) }
}

/// The button register with the bit of `key` cleared (or unchanged for a key that drives no bit).
pub open spec fn spec_unpress(register: u8, key: Key) -> u8 {
    let k = spec_key_bit(key);
    if k > 7 { register } else { register & !(1u8 << k) }
}

/// Maps a key to the bit of the button register that it drives (0xFF when none).
pub fn keycode_to_bit(key: Key) -> (r: u8)
    ensures
        r == spec_key_bit(key),
{
    match key {
        Key::O => 0,
        Key::P => 1,
        Key::I => 2,
        Key::U => 3,
        Key::W => 4,
        Key::S => 5,
        Key::A => 6,
        Key::D => 7,
        _ => 0b11111111,
    }
}

impl Controller {
    /// A controller with no button down, reading from the first button.
    pub fn new() -> (r: Self)
        ensures
            r == (Controller { reset: false, register: 0, index: 0 }),
    {
        Controller { reset: false, register: 0, index: 0 }
    }

    /// The CPU writes `data` to the controller port: bit 0 sets or clears the strobe,
    /// and a set strobe rewinds the reading to the first button.
    pub fn write(&mut self, data: u8)
        ensures
            *final(self) == spec_controller_write(*old(self), data),
    {
        assert((data & 1 == 1) == (data % 2 == 1)) by (bit_vector);
        self.reset = data & 1 == 1;
        if self.reset {
            self.index = 0;
        }
    }

    /// The CPU reads the controller port: the bit of the current button, after which
    /// the reading moves on unless the strobe is set; 1 once all eight were read.
    pub fn read(&mut self) -> (r: u8)
        ensures
            (*final(self), r) == spec_controller_read(*old(self)),
    {
        if self.index > 7 {
            return 1;
        }
        let bit = get_bit(self.register, self.index);
        if !self.reset && self.index < 8 {
            self.index += 1;
        }
        bit
    }

    /// Marks the button of `button` as held down.
    pub fn press(&mut self, button: Key)
        ensures
            final(self).register == spec_press(old(self).register, button),
            final(self).reset == old(self).reset,
            final(self).index == old(self).index,
    {
        let key = keycode_to_bit(button);
        if key > 7 {
            return ();
        }
        self.register |= 1 << key;
    }

    /// Marks the button of `button` as released.
    pub fn unpress(&mut self, button: Key)
        ensures
            final(self).register == spec_unpress(old(self).register, button),
            final(self).reset == old(self).reset,
            final(self).index == old(self).index,
    {
        let key = keycode_to_bit(button);
        if key > 7 {
            return ();
        }
        self.register &= !(1 << key);
    }
}

/// The state of a controller and the bits returned after `n` reads of its port.
pub open spec fn spec_read_n(c: Controller, n: nat) -> (Controller, Seq<u8>)
    decreases n,
{
    if n == 0 {
        (c, Seq::empty())
    } else {
        let (c1, bits) = spec_read_n(c, (n - 1) as nat);
        let (c2, b) = spec_controller_read(c1);
        (c2, bits.push(b))
    }
}

/// After the strobe is set and cleared again, eight reads of the port return the
/// buttons one after another (bit 0 first), and every read after them returns 1.
pub proof fn law_serial_read(c: Controller, n: nat)
    requires
        n >= 8,
    ensures
        ({
            let c0 = spec_controller_write(spec_controller_write(c, 1), 0);
            let bits = spec_read_n(c0, n).1;
            &&& bits.len() == n
            &&& forall|k: int| 0 <= k < 8 ==> #[trigger] bits[k] == bit_of(c.register, k as u8)
            &&& forall|k: int| 8 <= k < n ==> #[trigger] bits[k] == 1
        }),
{
    let c0 = spec_controller_write(spec_controller_write(c, 1), 0);
    lemma_read_n_from_start(c0, n);
}

proof fn lemma_read_n_from_start(c0: Controller, n: nat)
    requires
        !c0.reset,
        c0.index == 0,
    ensures
        ({
            let (c1, bits) = spec_read_n(c0, n);
            &&& bits.len() == n
            &&& c1.register == c0.register
            &&& !c1.reset
            &&& c1.index == if n < 8 { n } else { 8 }
            &&& forall|k: int| 0 <= k < 8 && k < n ==> #[trigger] bits[k] == bit_of(c0.register, k as u8)
            &&& forall|k: int| 8 <= k < n ==> #[trigger] bits[k] == 1
        }),
    decreases n,
{
    if n > 0 {
        lemma_read_n_from_start(c0, (n - 1) as nat);
    }
}

/// While the strobe is set, every read of the port returns the first button (bit 0).
pub proof fn law_strobe_holds_first_button(c: Controller, data: u8)
    requires
        data % 2 == 1,
    ensures
        ({
            let c0 = spec_controller_write(c, data);
            let (c1, b) = spec_controller_read(c0);
            &&& b == bit_of(c.register, 0)
            &&& c1 == c0
        }),
{
}

/// Pressing a key sets its button's bit and leaves the others; releasing it clears that
/// bit and leaves the others; keys that drive no button change nothing.
pub proof fn law_press_unpress(register: u8, key: Key)
    ensures
        spec_key_bit(key) < 8 ==> bit_of(spec_press(register, key), spec_key_bit(key)) == 1,
        spec_key_bit(key) < 8 ==> bit_of(spec_unpress(register, key), spec_key_bit(key)) == 0,
        forall|j: u8| j < 8 && j != spec_key_bit(key) ==> #[trigger] bit_of(spec_press(register, key), j) == bit_of(register, j),
        forall|j: u8| j < 8 && j != spec_key_bit(key) ==> #[trigger] bit_of(spec_unpress(register, key), j) == bit_of(register, j),
        spec_key_bit(key) > 7 ==> spec_press(register, key) == register && spec_unpress(register, key) == register,
{
    let k = spec_key_bit(key);
    if k < 8 {
        assert({
            &&& ((register | (1u8 << k)) >> k) & 1 == 1
            &&& ((register & !(1u8 << k)) >> k) & 1 == 0
            &&& forall|j: u8| #![auto] j < 8 && j != k ==> ((register | (1u8 << k)) >> j) & 1 == (register >> j) & 1
            &&& forall|j: u8| #![auto] j < 8 && j != k ==> ((register & !(1u8 << k)) >> j) & 1 == (register >> j) & 1
        }) by (bit_vector)
            requires
                k < 8,
        ;
    }
}

} // verus!
