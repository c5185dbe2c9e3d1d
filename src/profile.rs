//! The key bindings that a configuration profile declares.
use vstd::prelude::*;
use crate::keys::Key;

verus! {

/// A binding of one key.
#[derive(Debug)]
pub struct Keybind {
    pub key: Key,
}

impl Keybind {
    /// A binding of `key`.
    pub fn new(key: Key) -> (r: Keybind)
        ensures
            r.key == key,
    {
        Keybind { key }
    }
}

/// The bindings of a profile, in the order they were declared.
#[derive(Debug)]
pub struct ProfileContext {
    keybinds: Vec<Keybind>,
}

impl ProfileContext {
    /// The declared bindings.
    pub closed spec fn spec_keybinds(&self) -> Seq<Keybind> {
        self.keybinds@
    }

    /// A profile with `keybinds`.
    pub fn new(keybinds: Vec<Keybind>) -> (r: ProfileContext)
        ensures
            r.spec_keybinds() == keybinds@,
    {
        ProfileContext { keybinds }
    }

    /// The bindings, in the order they were declared.
    pub fn keybinds(&self) -> (r: &[Keybind])
        ensures
            r@ == self.spec_keybinds(),
    {
        self.keybinds.as_slice()
    }
}

} // verus!
