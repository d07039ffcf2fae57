//! The state of the sixteen keys.

use vstd::prelude::*;
use crate::error::Chip8Error;

verus! {

/// Number of keys.
pub const KEYS: usize = 16;

/// Whether `key` is a key that is held down.
pub open spec fn key_down(keys: Seq<bool>, key: int) -> bool {
    0 <= key < keys.len() && keys[key]
}

/// Whether `key` is held down and no lower key is.
pub open spec fn is_first_key_down(keys: Seq<bool>, key: int) -> bool {
    key_down(keys, key) && forall|j: int| 0 <= j < key ==> !key_down(keys, j)
}

/// The lowest key that is held down, if any is.
pub open spec fn first_key_down(keys: Seq<bool>) -> Option<u8> {
    if exists|k: int| key_down(keys, k) {
        Some((choose|k: int| is_first_key_down(keys, k)) as u8)
    } else {
        None
    }
}

/// No key held down.
pub open spec fn no_keys() -> Seq<bool> {
    Seq::new(KEYS as nat, |k: int| false)
}

/// The keyboard.
pub struct Keyboard {
    keys: Vec<bool>,
}

impl View for Keyboard {
    type V = Seq<bool>;

    closed spec fn view(&self) -> Seq<bool> {
        self.keys@
    }
}

impl Keyboard {
    /// Every keyboard has exactly `KEYS` keys.
    pub open spec fn wf(&self) -> bool {
        self@.len() == KEYS
    }

    /// A keyboard with no key held down.
    pub fn new() -> (kb: Keyboard)
        ensures
            kb.wf(),
            kb@ == no_keys(),
    {
        let mut keys: Vec<bool> = Vec::new();
        let mut k: usize = 0;
        while k < KEYS
            invariant
                k <= KEYS,
                keys@.len() == k,
                forall|j: int| 0 <= j < k ==> !#[trigger] keys@[j],
            decreases KEYS - k,
        {
            keys.push(false);
            k += 1;
        }
        assert(keys@ =~= no_keys());
        Keyboard { keys }
    }

    /// Whether `key` is held down. A number that names no key is never down.
    pub fn key_pressed(&self, key: u8) -> (down: bool)
        requires
            self.wf(),
        ensures
            down == key_down(self@, key as int),
    {
        (key as usize) < KEYS && self.keys[key as usize]
    }

    /// The lowest key that is held down, `None` when none is.
    pub fn get_key_pressed(&self) -> (key: Option<u8>)
        requires
            self.wf(),
        ensures
            key == first_key_down(self@),
            key is Some ==> key_down(self@, key->0 as int) && forall|j: int|
                0 <= j < key->0 ==> !key_down(self@, j),
            key is None ==> forall|k: int| !key_down(self@, k),
    {
        let mut k: u8 = 0;
        while k < 16
            invariant
                k <= 16,
                self.wf(),
                forall|j: int| 0 <= j < k ==> !key_down(self@, j),
            decreases 16 - k,
        {
            if self.keys[k as usize] {
                proof {
                    assert(is_first_key_down(self@, k as int));
                    let c = choose|c: int| is_first_key_down(self@, c);
                    assert(c == k) by {
                        if c < k {
                            assert(!key_down(self@, c));
                        } else if k < c {
                            assert(!key_down(self@, k as int));
                        }
                    }
                }
                return Some(k);
            }
            k += 1;
        }
        None
    }

    /// Records that `key` is held down, or is not. A number that names no key
    /// is `OutOfBounds` and changes nothing.
    pub fn set_key_pressed(&mut self, key: u8, pressed: bool) -> (r: Result<(), Chip8Error>)
        requires
            old(self).wf(),
        ensures
            final(self).wf(),
            key < KEYS ==> r.is_ok() && final(self)@ == old(self)@.update(key as int, pressed),
            key >= KEYS ==> r == Err::<(), Chip8Error>(Chip8Error::OutOfBounds) && final(self)@
                == old(self)@,
    {
        if (key as usize) < KEYS {
            self.keys.set(key as usize, pressed);
            Ok(())
        } else {
            Err(Chip8Error::OutOfBounds)
        }
    }
}

} // verus!
