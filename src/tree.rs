//! The registered key combinations and the handler bound to each.
//!
//! A combination is found only by an exact match: a combination that is a
//! strict prefix of a registered one, or one that extends a registered one,
//! finds nothing, so a short combination never fires while a longer one that
//! starts with it is still being typed.
use vstd::prelude::*;

verus! {

/// What a lookup of `combo` in the registered combinations gives.
pub open spec fn lookup<H>(combos: Map<Seq<u32>, H>, combo: Seq<u32>) -> Option<H> {
    if combos.contains_key(combo) {
        Some(combos[combo])
    } else {
        None
    }
}

/// The handler behind a found reference, as a value.
pub open spec fn found<H>(r: Option<&H>) -> Option<H> {
    match r {
        Some(h) => Some(*h),
        None => None,
    }
}

/// After `combo` is bound to `handler`, looking `combo` up gives `handler`;
/// a strict prefix of `combo`, or `combo` followed by more keys, gives nothing
/// unless it was itself registered before.
pub proof fn lemma_exact_match<H>(before: Map<Seq<u32>, H>, combo: Seq<u32>, handler: H)
    ensures
        lookup(before.insert(combo, handler), combo) == Some(handler),
        forall|n: int|
            0 <= n < combo.len() && !before.contains_key(#[trigger] combo.take(n)) ==> lookup(
                before.insert(combo, handler),
                combo.take(n),
            ) is None,
        forall|extra: Seq<u32>|
            extra.len() > 0 && !before.contains_key(#[trigger] (combo + extra)) ==> lookup(
                before.insert(combo, handler),
                combo + extra,
            ) is None,
{
    assert forall|n: int|
        0 <= n < combo.len() && !before.contains_key(#[trigger] combo.take(n)) implies lookup(
        before.insert(combo, handler),
        combo.take(n),
    ) is None by {
        assert(combo.take(n).len() != combo.len());
    }
    assert forall|extra: Seq<u32>|
        extra.len() > 0 && !before.contains_key(#[trigger] (combo + extra)) implies lookup(
        before.insert(combo, handler),
        combo + extra,
    ) is None by {
        assert((combo + extra).len() != combo.len());
    }
}

/// Binding a combination again replaces the handler it was bound to.
pub proof fn lemma_rebind_replaces<H>(
    before: Map<Seq<u32>, H>,
    combo: Seq<u32>,
    first: H,
    second: H,
)
    ensures
        lookup(before.insert(combo, first).insert(combo, second), combo) == Some(second),
{
}

/// Once cleared, no combination finds a handler.
pub proof fn lemma_cleared_finds_nothing<H>(combo: Seq<u32>)
    ensures
        lookup(Map::<Seq<u32>, H>::empty(), combo) is None,
{
}

/// The registered combinations, each with the handler that was bound to it
/// last.
pub struct ComboTree<H> {
    combos: Vec<Vec<u32>>,
    handlers: Vec<H>,
}

impl<H> ComboTree<H> {
    spec fn combo_views(&self) -> Seq<Seq<u32>> {
        self.combos@.map_values(|c: Vec<u32>| c@)
    }

    /// Each combination is registered once, with one handler.
    pub closed spec fn wf(&self) -> bool {
        &&& self.combos@.len() == self.handlers@.len()
        &&& self.combo_views().no_duplicates()
    }

    /// The registered combinations, each mapped to its handler.
    pub closed spec fn view(&self) -> Map<Seq<u32>, H> {
        Map::new(
            |c: Seq<u32>| self.combo_views().contains(c),
            |c: Seq<u32>| self.handlers@[self.combo_views().index_of(c)],
        )
    }

    /// A tree with no combination registered.
    pub fn new() -> (r: ComboTree<H>)
        ensures
            r.wf(),
            r.view() == Map::<Seq<u32>, H>::empty(),
    {
        let r = ComboTree { combos: Vec::new(), handlers: Vec::new() };
        assert(r.view() =~= Map::<Seq<u32>, H>::empty());
        r
    }

    /// The index of `combo` among the registered combinations, if it is one.
    fn position(&self, combo: &[u32]) -> (r: Option<usize>)
        requires
            self.wf(),
        ensures
            match r {
                Some(i) => i < self.combos@.len() && self.combo_views()[i as int] == combo@,
                None => !self.combo_views().contains(combo@),
            },
    {
        let mut i: usize = 0;
        while i < self.combos.len()
            invariant
                self.wf(),
                i <= self.combos@.len(),
                forall|j: int| 0 <= j < i ==> self.combo_views()[j] != combo@,
            decreases self.combos@.len() - i,
        {
            if same_keys(self.combos[i].as_slice(), combo) {
                return Some(i);
            }
            i = i + 1;
        }
        None
    }

    /// Binds `handler` to `combo`, replacing the handler that was bound to
    /// the same combination before, if any.
    pub fn add_combo(&mut self, combo: &[u32], handler: H)
        requires
            old(self).wf(),
        ensures
            final(self).wf(),
            final(self).view() == old(self).view().insert(combo@, handler),
    {
        let ghost before = self.view();
        match self.position(combo) {
            Some(i) => {
                self.handlers.set(i, handler);
                proof {
                    let views = self.combo_views();
                    assert(views.index_of(combo@) == i as int);
                    assert forall|c: Seq<u32>| #[trigger] views.contains(c) && c != combo@ implies
                        views.index_of(c) != i as int by {}
                    assert(self.view() =~= before.insert(combo@, handler));
                }
            },
            None => {
                let copy = copy_keys(combo);
                self.combos.push(copy);
                self.handlers.push(handler);
                proof {
                    let views = self.combo_views();
                    let n = views.len() - 1;
                    assert(views.drop_last() =~= old(self).combo_views());
                    assert(views[n] == combo@);
                    assert forall|a: int, b: int| 0 <= a < views.len() && 0 <= b < views.len()
                        && a != b implies views[a] != views[b] by {
                        if a != n && b != n {
                            assert(old(self).combo_views()[a] == views[a]);
                            assert(old(self).combo_views()[b] == views[b]);
                        } else if a == n {
                            assert(old(self).combo_views()[b] == views[b]);
                        } else {
                            assert(old(self).combo_views()[a] == views[a]);
                        }
                    }
                    assert(views.index_of(combo@) == n);
                    assert forall|c: Seq<u32>| #[trigger] views.contains(c) && c != combo@ implies
                        old(self).combo_views().contains(c) && views.index_of(c)
                            == old(self).combo_views().index_of(c) by {
                        let k = views.index_of(c);
                        assert(views[k] == c);
                        assert(k != n);
                        assert(old(self).combo_views()[k] == c);
                    }
                    assert(self.view() =~= before.insert(combo@, handler));
                }
            },
        }
    }

    /// The handler bound to exactly `combo`, or `None` where no handler is.
    pub fn find_combo_handler(&self, combo: &[u32]) -> (r: Option<&H>)
        requires
            self.wf(),
        ensures
            found(r) == lookup(self.view(), combo@),
    {
        match self.position(combo) {
            Some(i) => Some(&self.handlers[i]),
            None => None,
        }
    }

    /// Drops every registered combination.
    pub fn clear(&mut self)
        ensures
            final(self).wf(),
            final(self).view() == Map::<Seq<u32>, H>::empty(),
    {
        self.combos.clear();
        self.handlers.clear();
        assert(self.view() =~= Map::<Seq<u32>, H>::empty());
    }
}

/// Whether two key sequences are equal.
fn same_keys(a: &[u32], b: &[u32]) -> (r: bool)
    ensures
        r == (a@ == b@),
{
    if a.len() != b.len() {
        return false;
    }
    let mut i: usize = 0;
    while i < a.len()
        invariant
            a@.len() == b@.len(),
            i <= a@.len(),
            a@.take(i as int) == b@.take(i as int),
        decreases a@.len() - i,
    {
        if a[i] != b[i] {
            return false;
        }
        assert(a@.take(i + 1) =~= a@.take(i as int).push(a@[i as int]));
        assert(b@.take(i + 1) =~= b@.take(i as int).push(b@[i as int]));
        i = i + 1;
    }
    assert(a@ =~= a@.take(i as int));
    assert(b@ =~= b@.take(i as int));
    true
}

/// An owned copy of a key sequence.
fn copy_keys(keys: &[u32]) -> (r: Vec<u32>)
    ensures
        r@ == keys@,
{
    let mut copy: Vec<u32> = Vec::with_capacity(keys.len());
    let mut i: usize = 0;
    while i < keys.len()
        invariant
            i <= keys@.len(),
            copy@ == keys@.take(i as int),
        decreases keys@.len() - i,
    {
        copy.push(keys[i]);
        assert(keys@.take(i + 1) =~= keys@.take(i as int).push(keys@[i as int]));
        i = i + 1;
    }
    assert(keys@ =~= keys@.take(i as int));
    copy
}

} // verus!
