//! Keys as characters, and how they resolve to the keycodes of the running
//! X server's keyboard layout.
//!
//! A character becomes a keysym (a layout-independent symbol), and the keysym
//! is looked up in the keyboard mapping that the server reports: a table with
//! a row of keysyms for each keycode from `min_keycode` to `max_keycode`.
use vstd::prelude::*;

verus! {

/// The keysym of a character, as `xkb_utf32_to_keysym` gives it.
pub uninterp spec fn keysym_of(c: char) -> u32;

/// Relies on `xkeysym::Keysym::from_char`, which replicates xkbcommon's
/// `xkb_utf32_to_keysym`: the keysym for a character, which depends on the
/// character alone.
#[verifier::external_body]
fn char_to_keysym(c: char) -> (r: u32)
    ensures
        r == keysym_of(c),
{
    xkeysym::Keysym::from_char(c).raw()
}

/// The keycode whose row of `table` first holds `keysym`, where rows are
/// `per` entries long and the first row belongs to `min_keycode`.
pub open spec fn keycode_in(min_keycode: u8, per: u8, table: Seq<u32>, keysym: u32) -> Option<u32> {
    if per == 0 || !table.contains(keysym) {
        None
    } else {
        let p = choose|p: int|
            0 <= p < table.len() && table[p] == keysym && forall|q: int|
                0 <= q < p ==> table[q] != keysym;
        Some((min_keycode + p / (per as int)) as u32)
    }
}

/// The keyboard mapping of an X server.
#[derive(Debug)]
pub struct KeyState {
    min_keycode: u8,
    max_keycode: u8,
    keysyms_per_keycode: u8,
    keysyms: Vec<u32>,
}

impl KeyState {
    /// The table has no more rows than there are keycodes.
    pub closed spec fn wf(&self) -> bool {
        &&& self.min_keycode <= self.max_keycode
        &&& self.keysyms@.len() <= (self.max_keycode - self.min_keycode + 1)
            * self.keysyms_per_keycode
    }

    /// The keycode that `keysym` resolves to in this mapping.
    pub closed spec fn resolve(&self, keysym: u32) -> Option<u32> {
        keycode_in(self.min_keycode, self.keysyms_per_keycode, self.keysyms@, keysym)
    }

    /// A mapping from the values of a GetKeyboardMapping reply: rows of
    /// `keysyms_per_keycode` keysyms, one row for each keycode from
    /// `min_keycode` to `max_keycode`.
    pub fn new(min_keycode: u8, max_keycode: u8, keysyms_per_keycode: u8, keysyms: Vec<u32>) -> (r:
        KeyState)
        requires
            min_keycode <= max_keycode,
            keysyms@.len() <= (max_keycode - min_keycode + 1) * keysyms_per_keycode,
        ensures
            r.wf(),
            forall|keysym: u32|
                #![trigger r.resolve(keysym)]
                r.resolve(keysym) == keycode_in(min_keycode, keysyms_per_keycode, keysyms@, keysym),
    {
        KeyState { min_keycode, max_keycode, keysyms_per_keycode, keysyms }
    }

    /// The first keycode whose row holds `keysym`, or `None` where no row does.
    pub fn keysym_to_keycode(&self, keysym: u32) -> (r: Option<u32>)
        requires
            self.wf(),
        ensures
            r == self.resolve(keysym),
    {
        let per = self.keysyms_per_keycode;
        if per == 0 {
            return None;
        }
        let mut j: usize = 0;
        while j < self.keysyms.len()
            invariant
                self.wf(),
                per == self.keysyms_per_keycode,
                per > 0,
                j <= self.keysyms@.len(),
                forall|q: int| 0 <= q < j ==> self.keysyms@[q] != keysym,
            decreases self.keysyms@.len() - j,
        {
            if self.keysyms[j] == keysym {
                let row = j / (per as usize);
                proof {
                    let rows = (self.max_keycode - self.min_keycode + 1) as int;
                    let len = self.keysyms@.len() as int;
                    let p = choose|p: int|
                        0 <= p < len && self.keysyms@[p] == keysym && forall|q: int|
                            0 <= q < p ==> self.keysyms@[q] != keysym;
                    assert(self.keysyms@[j as int] == keysym);
                    assert(p == j as int) by {
                        if p < j as int {
                        } else if p > j as int {
                        }
                    }
                    assert(row as int == j as int / per as int);
                    assert(j < rows * per as int) by (nonlinear_arith)
                        requires
                            j < len,
                            len <= rows * per as int,
                    ;
                    assert(row < rows) by (nonlinear_arith)
                        requires
                            row as int == j as int / per as int,
                            j < rows * per as int,
                            per > 0,
                    ;
                }
                return Some(self.min_keycode as u32 + row as u32);
            }
            j = j + 1;
        }
        None
    }
}

/// A key, named by the character it types.
#[derive(Debug, Clone, Copy, PartialEq, Eq, Structural)]
pub struct Key(pub char);

impl Key {
    /// The key that types `c`.
    pub fn from_char(c: char) -> (r: Key)
        ensures
            r.0 == c,
    {
        Key(c)
    }

    /// The keysym of the key's character.
    pub fn keysym(&self) -> (r: u32)
        ensures
            r == keysym_of(self.0),
    {
        char_to_keysym(self.0)
    }

    /// The keycode that types this key in the mapping `state`, or `None` where
    /// the layout has no key for it.
    pub fn keycode(&self, state: &KeyState) -> (r: Option<u32>)
        requires
            state.wf(),
        ensures
            r == state.resolve(keysym_of(self.0)),
    {
        let keysym = self.keysym();
        state.keysym_to_keycode(keysym)
    }
}

/// A key going down or coming up.
#[derive(Debug, Clone, Copy, PartialEq, Eq, Structural)]
pub enum KeyEvent {
    Press(Key),
    Release(Key),
}

/// What a single mapped key does.
#[derive(Debug)]
pub enum KeyAction {
    /// Launches `command` with `args`.
    Spawn { command: String, args: Vec<String> },
    /// Does nothing.
    Placeholder,
}

/// A key together with what it does.
#[derive(Debug)]
pub struct KeyMap(pub Key, pub KeyAction);

impl KeyMap {
    /// Maps `key` to `action`.
    pub fn new(key: Key, action: KeyAction) -> (r: KeyMap)
        ensures
            r.0 == key,
            r.1 == action,
    {
        KeyMap(key, action)
    }

    /// The mapped key.
    pub fn key(&self) -> (r: Key)
        ensures
            r == self.0,
    {
        self.0
    }
}

/// The modifier keys that are down, as a mask.
#[derive(Debug, PartialEq, Eq, Structural)]
pub struct Keyboard {
    pub active_modifiers: u32,
}

impl Default for Keyboard {
    /// No modifier down.
    fn default() -> (r: Keyboard)
        ensures
            r.active_modifiers == 0,
    {
        Keyboard { active_modifiers: 0 }
    }
}

} // verus!
