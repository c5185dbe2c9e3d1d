//! The record of currently held keys.
//!
//! X11 does not report every key that is held when a grabbed key is pressed,
//! so the keys that make up a combination are remembered here, in the order
//! they were pressed.
use vstd::prelude::*;
use crate::text::{decimal, u32_text};

verus! {

/// What a press does to the held keys: the key is appended unless it is held.
pub open spec fn pressed(keys: Seq<u32>, keycode: u32) -> Seq<u32> {
    if keys.contains(keycode) {
        keys
    } else {
        keys.push(keycode)
    }
}

/// What a release does to the held keys: releasing the first (root) key drops
/// every key, releasing another held key drops only that one, and releasing a
/// key that is not held changes nothing.
pub open spec fn released(keys: Seq<u32>, keycode: u32) -> Seq<u32> {
    if !keys.contains(keycode) {
        keys
    } else if keys[0] == keycode {
        Seq::empty()
    } else {
        keys.remove(keys.index_of(keycode))
    }
}

/// One key event, as the record sees it.
pub ghost enum KeyChange {
    Press(u32),
    Release(u32),
}

/// The held keys after `changes`, applied in order, starting from `keys`.
pub open spec fn replay(keys: Seq<u32>, changes: Seq<KeyChange>) -> Seq<u32>
    decreases changes.len(),
{
    if changes.len() == 0 {
        keys
    } else {
        let before = replay(keys, changes.drop_last());
        match changes.last() {
            KeyChange::Press(k) => pressed(before, k),
            KeyChange::Release(k) => released(before, k),
        }
    }
}

/// A press or a release never makes a key appear twice.
pub proof fn lemma_change_keeps_distinct(keys: Seq<u32>, change: KeyChange)
    requires
        keys.no_duplicates(),
    ensures
        match change {
            KeyChange::Press(k) => pressed(keys, k).no_duplicates(),
            KeyChange::Release(k) => released(keys, k).no_duplicates(),
        },
{
    match change {
        KeyChange::Press(k) => {
            if !keys.contains(k) {
                let after = keys.push(k);
                assert forall|a: int, b: int|
                    0 <= a < after.len() && 0 <= b < after.len() && a != b implies after[a]
                    != after[b] by {
                    if a < keys.len() && b < keys.len() {
                    } else if a < keys.len() {
                        assert(keys.contains(keys[a]));
                    } else {
                        assert(keys.contains(keys[b]));
                    }
                }
            }
        },
        KeyChange::Release(k) => {
            if keys.contains(k) && keys[0] != k {
                let i = keys.index_of(k);
                let after = keys.remove(i);
                assert forall|a: int, b: int|
                    0 <= a < after.len() && 0 <= b < after.len() && a != b implies after[a]
                    != after[b] by {
                    let a0 = if a < i { a } else { a + 1 };
                    let b0 = if b < i { b } else { b + 1 };
                    assert(after[a] == keys[a0]);
                    assert(after[b] == keys[b0]);
                }
            }
        },
    }
}

/// Whatever presses and releases come, in whatever order, the record never
/// holds a key twice.
pub proof fn lemma_record_stays_distinct(changes: Seq<KeyChange>)
    ensures
        replay(Seq::empty(), changes).no_duplicates(),
    decreases changes.len(),
{
    if changes.len() > 0 {
        lemma_record_stays_distinct(changes.drop_last());
        lemma_change_keeps_distinct(replay(Seq::empty(), changes.drop_last()), changes.last());
    }
}

/// A press of each key of `keys`, in order.
pub open spec fn presses(keys: Seq<u32>) -> Seq<KeyChange> {
    keys.map_values(|k: u32| KeyChange::Press(k))
}

/// Pressing the keys of a combination of distinct keys one after the other,
/// from an empty record, holds exactly that combination.
pub proof fn lemma_typing_holds_combo(keys: Seq<u32>)
    requires
        keys.no_duplicates(),
    ensures
        replay(Seq::empty(), presses(keys)) == keys,
    decreases keys.len(),
{
    if keys.len() > 0 {
        let prefix = keys.drop_last();
        assert(prefix.no_duplicates());
        lemma_typing_holds_combo(prefix);
        assert(presses(keys).drop_last() =~= presses(prefix));
        assert(!prefix.contains(keys.last())) by {
            if prefix.contains(keys.last()) {
                let j = choose|j: int| 0 <= j < prefix.len() && prefix[j] == keys.last();
                assert(keys[j] == keys[keys.len() - 1]);
            }
        }
        assert(prefix.push(keys.last()) =~= keys);
    }
}

/// Releasing the root key, the first one held, empties the record whatever
/// other keys are held.
pub proof fn lemma_root_release_clears(keys: Seq<u32>)
    requires
        keys.len() > 0,
    ensures
        released(keys, keys[0]) == Seq::<u32>::empty(),
{
    assert(keys.contains(keys[0]));
}

/// The keycodes in decimal, joined by `+`.
pub open spec fn joined_decimal(keys: Seq<u32>) -> Seq<char>
    decreases keys.len(),
{
    if keys.len() == 0 {
        Seq::empty()
    } else if keys.len() == 1 {
        decimal(keys[0] as int)
    } else {
        joined_decimal(keys.drop_last()) + seq!['+'] + decimal(keys.last() as int)
    }
}

/// A frozen copy of the held keys, taken for a lookup while the live record
/// goes on changing.
#[derive(Debug)]
pub struct ComboSnapshot(Vec<u32>);

impl View for ComboSnapshot {
    type V = Seq<u32>;

    closed spec fn view(&self) -> Seq<u32> {
        self.0@
    }
}

impl ComboSnapshot {
    /// The keycodes of the snapshot, in press order.
    pub fn keycodes(&self) -> (r: &Vec<u32>)
        ensures
            r@ == self@,
    {
        &self.0
    }

    /// The keycodes in decimal, in press order, joined by `+`.
    pub fn to_text(&self) -> (r: String)
        ensures
            r@ == joined_decimal(self@),
    {
        let mut text = String::new();
        let mut i: usize = 0;
        while i < self.0.len()
            invariant
                i <= self.0@.len(),
                text@ == joined_decimal(self.0@.take(i as int)),
            decreases self.0@.len() - i,
        {
            proof {
                reveal_strlit("+");
            }
            if i > 0 {
                text.append("+");
            }
            let digits = u32_text(self.0[i]);
            text.append(digits.as_str());
            assert(self.0@.take(i + 1).drop_last() =~= self.0@.take(i as int));
            assert(self.0@.take(i + 1).last() == self.0@[i as int]);
            if i == 0 {
                assert(Seq::<char>::empty() + digits@ =~= digits@);
            }
            i = i + 1;
        }
        assert(self.0@.take(i as int) =~= self.0@);
        text
    }
}

/// The keys currently held, in press order, each at most once.
#[derive(Debug)]
pub struct ComboRecord(Vec<u32>);

impl View for ComboRecord {
    type V = Seq<u32>;

    closed spec fn view(&self) -> Seq<u32> {
        self.0@
    }
}

impl ComboRecord {
    /// A record holds no key twice.
    pub open spec fn wf(&self) -> bool {
        self@.no_duplicates()
    }

    /// An empty record.
    pub fn new() -> (r: ComboRecord)
        ensures
            r@ == Seq::<u32>::empty(),
            r.wf(),
    {
        ComboRecord(Vec::with_capacity(8))
    }

    /// Whether `keycode` is held.
    pub fn contains(&self, keycode: u32) -> (r: bool)
        ensures
            r == self@.contains(keycode),
    {
        self.position(keycode).is_some()
    }

    /// The index of `keycode` in the record, if it is held.
    fn position(&self, keycode: u32) -> (r: Option<usize>)
        ensures
            match r {
                Some(i) => i < self@.len() && self@[i as int] == keycode && forall|j: int|
                    0 <= j < i ==> self@[j] != keycode,
                None => !self@.contains(keycode),
            },
    {
        let mut i: usize = 0;
        while i < self.0.len()
            invariant
                i <= self.0@.len(),
                forall|j: int| 0 <= j < i ==> self.0@[j] != keycode,
            decreases self.0@.len() - i,
        {
            if self.0[i] == keycode {
                return Some(i);
            }
            i = i + 1;
        }
        None
    }

    /// Records a press: the key is appended unless it is already held, which
    /// also absorbs the repeats that auto-repeat sends.
    pub fn add(&mut self, keycode: u32)
        requires
            old(self).wf(),
        ensures
            final(self)@ == pressed(old(self)@, keycode),
            final(self).wf(),
    {
        if !self.contains(keycode) {
            self.0.push(keycode);
        }
    }

    /// Records a release: releasing the root key (the first one held) clears
    /// the whole record, since X11 may never report the release of the keys
    /// pressed after it; releasing another held key removes only that key.
    pub fn remove(&mut self, keycode: u32)
        requires
            old(self).wf(),
        ensures
            final(self)@ == released(old(self)@, keycode),
            final(self).wf(),
    {
        match self.position(keycode) {
            Some(index) => {
                proof {
                    self@.index_of_first_ensures(keycode);
                }
                if index == 0 {
                    self.0.clear();
                } else {
                    self.0.remove(index);
                }
            },
            None => {},
        }
    }

    /// A copy of the held keys.
    pub fn snapshot(&self) -> (r: ComboSnapshot)
        ensures
            r@ == self@,
    {
        let mut keys: Vec<u32> = Vec::with_capacity(self.0.len());
        let mut i: usize = 0;
        while i < self.0.len()
            invariant
                i <= self.0@.len(),
                keys@ == self.0@.take(i as int),
            decreases self.0@.len() - i,
        {
            keys.push(self.0[i]);
            i = i + 1;
        }
        ComboSnapshot(keys)
    }
}

} // verus!
