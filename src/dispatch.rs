//! The decisions of the window manager's key handling: which combinations
//! the configuration registers, which keys have to be grabbed for them, and
//! what each key press or release does to the held keys and which handler it
//! fires. Talking to the X server is left to the caller.
use vstd::prelude::*;
use crate::config::{Config, ConfigCombo};
use crate::handler::{texts, Spawn, SpawnView};
use crate::keys::{keysym_of, Key, KeyState};
use crate::record::{pressed, released, ComboRecord, ComboSnapshot};
use crate::tree::{lookup, ComboTree};

verus! {

/// The keycode of a configured key string: the key that types its first
/// character.
pub open spec fn key_code(state: KeyState, key: Seq<char>) -> Option<u32> {
    if key.len() == 0 {
        None
    } else {
        state.resolve(keysym_of(key[0]))
    }
}

/// The keycodes of all the configured keys, or `None` where one of them has no
/// keycode.
pub open spec fn combo_codes(state: KeyState, keys: Seq<String>) -> Option<Seq<u32>>
    decreases keys.len(),
{
    if keys.len() == 0 {
        Some(Seq::empty())
    } else {
        match (combo_codes(state, keys.drop_last()), key_code(state, keys.last()@)) {
            (Some(codes), Some(code)) => Some(codes.push(code)),
            _ => None,
        }
    }
}

/// The keycodes that a configured combination is registered under: every key
/// resolves, there is at least one key, and there is a program to launch.
pub open spec fn bound_combo(state: KeyState, combo: ConfigCombo) -> Option<Seq<u32>> {
    match combo_codes(state, combo.spec_keys()) {
        Some(codes) => if codes.len() > 0 && combo.spec_spawn().len() > 0 {
            Some(codes)
        } else {
            None
        },
        None => None,
    }
}

/// The handler of a named combination: it launches the first string of the
/// command with the others as arguments.
pub open spec fn action_of(name: String, combo: ConfigCombo) -> SpawnView {
    SpawnView {
        name: name@,
        program: combo.spec_spawn()[0]@,
        arguments: texts(combo.spec_spawn().subrange(1, combo.spec_spawn().len() as int)),
    }
}

/// The combinations that `combos` register, each with its handler; a later
/// combination replaces an earlier one under the same keycodes.
pub open spec fn binds_of(state: KeyState, combos: Seq<(String, ConfigCombo)>) -> Map<
    Seq<u32>,
    SpawnView,
>
    decreases combos.len(),
{
    if combos.len() == 0 {
        Map::empty()
    } else {
        let before = binds_of(state, combos.drop_last());
        let (name, combo) = combos.last();
        match bound_combo(state, combo) {
            Some(codes) => before.insert(codes, action_of(name, combo)),
            None => before,
        }
    }
}

/// The first keycodes of the registered combinations, each once, in the order
/// they first appear.
pub open spec fn roots_of(state: KeyState, combos: Seq<(String, ConfigCombo)>) -> Seq<u32>
    decreases combos.len(),
{
    if combos.len() == 0 {
        Seq::empty()
    } else {
        let before = roots_of(state, combos.drop_last());
        match bound_combo(state, combos.last().1) {
            Some(codes) => if before.contains(codes[0]) {
                before
            } else {
                before.push(codes[0])
            },
            None => before,
        }
    }
}

/// The keys to grab are exactly the first keys of the registered
/// combinations, each named once, however many combinations share a first
/// key.
pub proof fn lemma_roots_are_first_keys(state: KeyState, combos: Seq<(String, ConfigCombo)>)
    ensures
        roots_of(state, combos).no_duplicates(),
        forall|c: Seq<u32>| #[trigger] binds_of(state, combos).contains_key(c) ==> c.len() > 0,
        forall|k: u32|
            #[trigger] roots_of(state, combos).contains(k) <==> exists|c: Seq<u32>|
                #[trigger] binds_of(state, combos).contains_key(c) && c[0] == k,
    decreases combos.len(),
{
    if combos.len() > 0 {
        let prefix = combos.drop_last();
        lemma_roots_are_first_keys(state, prefix);
        let before = roots_of(state, prefix);
        let m = binds_of(state, prefix);
        match bound_combo(state, combos.last().1) {
            Some(codes) => {
                let roots = roots_of(state, combos);
                let after = binds_of(state, combos);
                assert(roots == if before.contains(codes[0]) {
                    before
                } else {
                    before.push(codes[0])
                });
                assert(after == m.insert(codes, action_of(combos.last().0, combos.last().1)));
                if !before.contains(codes[0]) {
                    assert forall|a: int, b: int|
                        0 <= a < roots.len() && 0 <= b < roots.len() && a != b implies roots[a]
                        != roots[b] by {
                        if a < before.len() && b < before.len() {
                        } else if a < before.len() {
                            assert(before.contains(before[a]));
                        } else {
                            assert(before.contains(before[b]));
                        }
                    }
                }
                assert forall|k: u32| #[trigger] roots.contains(k) implies exists|c: Seq<u32>|
                    #[trigger] after.contains_key(c) && c[0] == k by {
                    if before.contains(k) {
                        let c = choose|c: Seq<u32>| #[trigger] m.contains_key(c) && c[0] == k;
                        assert(after.contains_key(c));
                    } else {
                        assert(roots == before.push(codes[0]));
                        let j = choose|j: int| 0 <= j < roots.len() && roots[j] == k;
                        assert(j == before.len());
                        assert(after.contains_key(codes));
                    }
                }
                assert forall|k: u32|
                    (exists|c: Seq<u32>| #[trigger] after.contains_key(c) && c[0] == k) implies
                    #[trigger] roots.contains(k) by {
                    let c = choose|c: Seq<u32>| #[trigger] after.contains_key(c) && c[0] == k;
                    if c == codes {
                        if !before.contains(codes[0]) {
                            assert(roots[before.len() as int] == codes[0]);
                        }
                    } else {
                        assert(m.contains_key(c));
                        assert(before.contains(k));
                        let j = choose|j: int| 0 <= j < before.len() && before[j] == k;
                        assert(roots[j] == k);
                    }
                }
            },
            None => {
                assert(roots_of(state, combos) == before);
                assert(binds_of(state, combos) == m);
            },
        }
    }
}

/// Where the keys of a prefix do not all resolve, neither do the keys of the
/// whole sequence.
proof fn lemma_codes_prefix_none(state: KeyState, keys: Seq<String>, j: int)
    requires
        0 <= j <= keys.len(),
        combo_codes(state, keys.take(j)) is None,
    ensures
        combo_codes(state, keys) is None,
    decreases keys.len() - j,
{
    if j < keys.len() {
        let next = keys.take(j + 1);
        assert(next.drop_last() =~= keys.take(j));
        lemma_codes_prefix_none(state, keys, j + 1);
    } else {
        assert(keys.take(j) =~= keys);
    }
}

/// The keycode of one configured key string.
fn resolve_key(state: &KeyState, key: &String) -> (r: Option<u32>)
    requires
        state.wf(),
    ensures
        r == key_code(*state, key@),
{
    let text = key.as_str();
    if text.unicode_len() == 0 {
        None
    } else {
        let first = Key::from_char(text.get_char(0));
        first.keycode(state)
    }
}

/// The keycodes of the configured keys, or `None` where one has none.
fn resolve_combo(state: &KeyState, keys: &[String]) -> (r: Option<Vec<u32>>)
    requires
        state.wf(),
    ensures
        match r {
            Some(codes) => combo_codes(*state, keys@) == Some(codes@),
            None => combo_codes(*state, keys@) is None,
        },
{
    let mut codes: Vec<u32> = Vec::with_capacity(keys.len());
    let mut j: usize = 0;
    while j < keys.len()
        invariant
            state.wf(),
            j <= keys@.len(),
            combo_codes(*state, keys@.take(j as int)) == Some(codes@),
        decreases keys@.len() - j,
    {
        let code = resolve_key(state, &keys[j]);
        assert(keys@.take(j + 1).drop_last() =~= keys@.take(j as int));
        match code {
            Some(code) => {
                codes.push(code);
            },
            None => {
                proof {
                    lemma_codes_prefix_none(*state, keys@, j + 1);
                }
                return None;
            },
        }
        j = j + 1;
    }
    assert(keys@.take(j as int) =~= keys@);
    Some(codes)
}

/// The handler of a named combination whose command is not empty.
fn make_spawn(name: &String, combo: &ConfigCombo) -> (r: Spawn)
    requires
        combo.spec_spawn().len() > 0,
    ensures
        r@ == action_of(*name, *combo),
{
    let command = combo.spawn();
    let mut arguments: Vec<String> = Vec::with_capacity(command.len() - 1);
    let mut k: usize = 1;
    while k < command.len()
        invariant
            1 <= k <= command@.len(),
            command@ == combo.spec_spawn(),
            arguments@ == command@.subrange(1, k as int),
        decreases command@.len() - k,
    {
        arguments.push(command[k].clone());
        assert(command@.subrange(1, k + 1) =~= command@.subrange(1, k as int).push(
            command@[k as int],
        ));
        k = k + 1;
    }
    Spawn::new(name.clone(), command[0].clone(), arguments)
}

/// The state of key handling: the registered combinations and the keys held.
pub struct Dispatcher {
    combos_tree: ComboTree<Spawn>,
    combos_record: ComboRecord,
}

impl Dispatcher {
    pub closed spec fn wf(&self) -> bool {
        self.combos_tree.wf() && self.combos_record.wf()
    }

    /// The registered combinations, each with its handler.
    pub closed spec fn combos(&self) -> Map<Seq<u32>, SpawnView> {
        self.combos_tree.view().map_values(|s: Spawn| s@)
    }

    /// The keys held, in press order.
    pub closed spec fn held(&self) -> Seq<u32> {
        self.combos_record@
    }

    /// No combination registered and no key held.
    pub fn new() -> (r: Dispatcher)
        ensures
            r.wf(),
            r.combos() == Map::<Seq<u32>, SpawnView>::empty(),
            r.held() == Seq::<u32>::empty(),
    {
        let r = Dispatcher { combos_tree: ComboTree::new(), combos_record: ComboRecord::new() };
        assert(r.combos() =~= Map::<Seq<u32>, SpawnView>::empty());
        r
    }
    /// Registers the combinations of `config` in place of the ones registered
    /// before, and returns the keycodes to grab: the first keycode of each
    /// registered combination, once each. A combination with a key that has
    /// no keycode in `state`, with no key, or with no command is left out;
    /// the others are not affected by it.
    pub fn setup_binds(&mut self, config: &Config, state: &KeyState) -> (roots: Vec<u32>)
        requires
            old(self).wf(),
            state.wf(),
        ensures
            final(self).wf(),
            final(self).combos() == binds_of(*state, config.spec_combos()),
            final(self).held() == old(self).held(),
            roots@ == roots_of(*state, config.spec_combos()),
    {
        self.combos_tree.clear();
        let combos = config.combos();
        let mut roots: Vec<u32> = Vec::new();
        let mut i: usize = 0;
        proof {
            assert(combos@.take(0) =~= Seq::<(String, ConfigCombo)>::empty());
            assert(self.combos() =~= Map::<Seq<u32>, SpawnView>::empty());
        }
        while i < combos.len()
            invariant
                self.wf(),
                state.wf(),
                i <= combos@.len(),
                combos@ == config.spec_combos(),
                self.held() == old(self).held(),
                self.combos() == binds_of(*state, combos@.take(i as int)),
                roots@ == roots_of(*state, combos@.take(i as int)),
            decreases combos@.len() - i,
        {
            let entry = &combos[i];
            let name = &entry.0;
            let combo = &entry.1;
            proof {
                let next = combos@.take(i + 1);
                assert(next.drop_last() =~= combos@.take(i as int));
                assert(next.last() == *entry);
            }
            match resolve_combo(state, combo.keys()) {
                Some(codes) => {
                    if codes.len() > 0 && combo.spawn().len() > 0 {
                        let action = make_spawn(name, combo);
                        self.combos_tree.add_combo(codes.as_slice(), action);
                        proof {
                            assert(self.combos() =~= binds_of(*state, combos@.take(i as int))
                                .insert(codes@, action_of(*name, *combo)));
                        }
                        let root = codes[0];
                        if !contains_code(&roots, root) {
                            roots.push(root);
                        }
                    }
                },
                None => {},
            }
            i = i + 1;
        }
        assert(combos@.take(i as int) =~= combos@);
        roots
    }

    /// Handles the press of `keycode`: the key joins the held keys, and the
    /// handler registered for exactly the held keys, if any, is returned for
    /// the caller to run without waiting on it.
    pub fn handle_key_press(&mut self, keycode: u32) -> (r: Option<Spawn>)
        requires
            old(self).wf(),
        ensures
            final(self).wf(),
            final(self).held() == pressed(old(self).held(), keycode),
            final(self).combos() == old(self).combos(),
            match r {
                Some(action) => lookup(final(self).combos(), final(self).held()) == Some(action@),
                None => lookup(final(self).combos(), final(self).held()) is None,
            },
    {
        self.combos_record.add(keycode);
        let snapshot = self.combos_record.snapshot();
        let found = self.combos_tree.find_combo_handler(snapshot.keycodes().as_slice());
        match found {
            Some(action) => Some(action.clone()),
            None => None,
        }
    }

    /// Handles the release of `keycode`; no handler fires on a release.
    pub fn handle_key_release(&mut self, keycode: u32)
        requires
            old(self).wf(),
        ensures
            final(self).wf(),
            final(self).held() == released(old(self).held(), keycode),
            final(self).combos() == old(self).combos(),
    {
        self.combos_record.remove(keycode);
    }

    /// A copy of the held keys.
    pub fn snapshot(&self) -> (r: ComboSnapshot)
        ensures
            r@ == self.held(),
    {
        self.combos_record.snapshot()
    }
}

/// Whether `code` is among `codes`.
fn contains_code(codes: &Vec<u32>, code: u32) -> (r: bool)
    ensures
        r == codes@.contains(code),
{
    let mut i: usize = 0;
    while i < codes.len()
        invariant
            i <= codes@.len(),
            forall|j: int| 0 <= j < i ==> codes@[j] != code,
        decreases codes@.len() - i,
    {
        if codes[i] == code {
            return true;
        }
        i = i + 1;
    }
    false
}


} // verus!
