//! The dependency container: a registry of factories keyed by type, each with
//! a cell that is filled at most once.
//!
//! The container decides; it runs nothing itself. A lookup that finds the
//! cell empty answers `Construct` and marks the cell as under construction:
//! the caller runs the factory and hands the instance back with `fulfil`.
//! A lookup that arrives meanwhile answers `Wait`, and every lookup after
//! `fulfil` answers `Ready`.

use std::collections::HashMap;
use vstd::prelude::*;
use vstd::std_specs::hash::*;

verus! {

/// A service declaration: the key of its type, whether it is built before
/// serving starts, and the factory that builds it.
pub struct StateDef<F> {
    pub type_id: u64,
    pub prewarm: bool,
    pub init_fn: F,
}

/// The state of an instance cell.
pub enum Cell<V> {
    /// Nothing was built yet.
    Empty,
    /// A caller is running the factory.
    Pending,
    /// The instance.
    Ready(V),
}

/// What the registry holds for one type.
pub struct Entry<F, V> {
    pub key: u64,
    pub prewarm: bool,
    pub factory: F,
    pub cell: Cell<V>,
}

/// The answer to a lookup.
#[derive(Clone, Copy, PartialEq, Eq, Structural, Debug)]
pub enum Step {
    /// The caller runs the factory and hands the instance to `fulfil`.
    Construct,
    /// Another caller is running the factory.
    Wait,
    /// The instance is there.
    Ready,
}

/// What happens to a container after registration is closed.
pub enum Event<V> {
    /// A lookup of the given key.
    Get(u64),
    /// A caller hands back the instance it built for the given key.
    Fulfil(u64, V),
}

/// Whether no key occurs twice.
pub open spec fn distinct_keys<F, V>(s: Seq<Entry<F, V>>) -> bool {
    forall|i: int, j: int| 0 <= i < j < s.len() ==> s[i].key != s[j].key
}

/// Whether a factory is registered under the key.
pub open spec fn registered<F, V>(s: Seq<Entry<F, V>>, key: u64) -> bool {
    exists|i: int| 0 <= i < s.len() && (#[trigger] s[i]).key == key
}

/// The position of the key's entry.
pub open spec fn position<F, V>(s: Seq<Entry<F, V>>, key: u64) -> int {
    choose|i: int| 0 <= i < s.len() && (#[trigger] s[i]).key == key
}

/// The key's entry.
pub open spec fn entry_of<F, V>(s: Seq<Entry<F, V>>, key: u64) -> Entry<F, V> {
    s[position(s, key)]
}

/// The entries with the key's cell replaced.
pub open spec fn with_cell<F, V>(s: Seq<Entry<F, V>>, key: u64, cell: Cell<V>) -> Seq<
    Entry<F, V>,
> {
    let e = entry_of(s, key);
    s.update(position(s, key), Entry { key: e.key, prewarm: e.prewarm, factory: e.factory, cell })
}

/// The entries after a registration: a new key is added at the end, a key
/// that is there already gets the new factory and flag and an empty cell.
pub open spec fn after_register<F, V>(
    s: Seq<Entry<F, V>>,
    key: u64,
    prewarm: bool,
    factory: F,
) -> Seq<Entry<F, V>> {
    let e = Entry { key, prewarm, factory, cell: Cell::Empty };
    if registered(s, key) {
        s.update(position(s, key), e)
    } else {
        s.push(e)
    }
}

/// The entries after all the declarations were registered, in order.
pub open spec fn after_register_all<F, V>(s: Seq<Entry<F, V>>, defs: Seq<StateDef<F>>) -> Seq<
    Entry<F, V>,
>
    decreases defs.len(),
{
    if defs.len() == 0 {
        s
    } else {
        let d = defs.last();
        after_register(after_register_all(s, defs.drop_last()), d.type_id, d.prewarm, d.init_fn)
    }
}

/// The answer to a lookup of a registered key.
pub open spec fn answer<F, V>(s: Seq<Entry<F, V>>, key: u64) -> Step {
    match entry_of(s, key).cell {
        Cell::Empty => Step::Construct,
        Cell::Pending => Step::Wait,
        Cell::Ready(_) => Step::Ready,
    }
}

/// The entries after a lookup: an empty cell is now under construction.
pub open spec fn after_get<F, V>(s: Seq<Entry<F, V>>, key: u64) -> Seq<Entry<F, V>> {
    if registered(s, key) && entry_of(s, key).cell is Empty {
        with_cell(s, key, Cell::Pending)
    } else {
        s
    }
}

/// The entries after an instance was handed back: a cell under construction
/// now holds it; any other cell stays as it is.
pub open spec fn after_fulfil<F, V>(s: Seq<Entry<F, V>>, key: u64, value: V) -> Seq<Entry<F, V>> {
    if registered(s, key) && entry_of(s, key).cell is Pending {
        with_cell(s, key, Cell::Ready(value))
    } else {
        s
    }
}

/// The entries after an event.
pub open spec fn after<F, V>(s: Seq<Entry<F, V>>, event: Event<V>) -> Seq<Entry<F, V>> {
    match event {
        Event::Get(key) => after_get(s, key),
        Event::Fulfil(key, value) => after_fulfil(s, key, value),
    }
}

/// The entries after a sequence of events.
pub open spec fn after_all<F, V>(s: Seq<Entry<F, V>>, events: Seq<Event<V>>) -> Seq<Entry<F, V>>
    decreases events.len(),
{
    if events.len() == 0 {
        s
    } else {
        after_all(after(s, events[0]), events.drop_first())
    }
}

/// Whether an event makes its caller run the key's factory.
pub open spec fn constructs<F, V>(s: Seq<Entry<F, V>>, event: Event<V>, key: u64) -> bool {
    event == Event::<V>::Get(key) && registered(s, key) && answer(s, key) == Step::Construct
}

/// How often the key's factory is run in a sequence of events.
pub open spec fn constructions<F, V>(s: Seq<Entry<F, V>>, events: Seq<Event<V>>, key: u64) -> nat
    decreases events.len(),
{
    if events.len() == 0 {
        0
    } else {
        let rest = constructions(after(s, events[0]), events.drop_first(), key);
        if constructs(s, events[0], key) {
            rest + 1
        } else {
            rest
        }
    }
}

/// The keys flagged for construction before serving, in the order of
/// registration.
pub open spec fn prewarm_keys<F, V>(s: Seq<Entry<F, V>>) -> Seq<u64>
    decreases s.len(),
{
    if s.len() == 0 {
        Seq::empty()
    } else if s.last().prewarm {
        prewarm_keys(s.drop_last()).push(s.last().key)
    } else {
        prewarm_keys(s.drop_last())
    }
}

/// With distinct keys, an entry's position is the position of its key.
pub proof fn lemma_position<F, V>(s: Seq<Entry<F, V>>, i: int)
    requires
        distinct_keys(s),
        0 <= i < s.len(),
    ensures
        registered(s, s[i].key),
        position(s, s[i].key) == i,
{
    let key = s[i].key;
    let p = position(s, key);
    assert(0 <= p < s.len() && s[p].key == key);
    if p < i {
        assert(s[p].key != s[i].key);
    } else if i < p {
        assert(s[i].key != s[p].key);
    }
}

/// Replacing a cell keeps the keys, and with them what is registered and
/// where.
pub proof fn lemma_with_cell<F, V>(s: Seq<Entry<F, V>>, key: u64, cell: Cell<V>)
    requires
        distinct_keys(s),
        registered(s, key),
    ensures
        distinct_keys(with_cell(s, key, cell)),
        with_cell(s, key, cell).len() == s.len(),
        forall|k: u64| registered(with_cell(s, key, cell), k) == registered(s, k),
        forall|k: u64|
            registered(s, k) ==> position(with_cell(s, key, cell), k) == position(s, k),
        entry_of(with_cell(s, key, cell), key).cell == cell,
        forall|k: u64|
            registered(s, k) && k != key ==> entry_of(with_cell(s, key, cell), k) == entry_of(s, k),
{
    let t = with_cell(s, key, cell);
    let p = position(s, key);
    assert(0 <= p < s.len() && s[p].key == key);
    assert forall|i: int| 0 <= i < s.len() implies (#[trigger] t[i]).key == s[i].key by {}
    assert forall|k: u64| registered(t, k) == registered(s, k) by {
        if registered(s, k) {
            let i = position(s, k);
            assert(t[i].key == k);
        }
        if registered(t, k) {
            let i = position(t, k);
            assert(s[i].key == k);
        }
    }
    assert forall|k: u64| registered(s, k) implies position(t, k) == position(s, k) by {
        let i = position(s, k);
        assert(t[i].key == k);
        lemma_position(t, i);
    }
}

/// Events after registration keep the keys distinct and registered.
pub proof fn lemma_after_keeps_keys<F, V>(s: Seq<Entry<F, V>>, event: Event<V>)
    requires
        distinct_keys(s),
    ensures
        distinct_keys(after(s, event)),
        forall|k: u64| registered(after(s, event), k) == registered(s, k),
{
    match event {
        Event::Get(key) => {
            if registered(s, key) {
                lemma_with_cell(s, key, Cell::<V>::Pending);
            }
        },
        Event::Fulfil(key, value) => {
            if registered(s, key) {
                lemma_with_cell(s, key, Cell::Ready(value));
            }
        },
    }
}

/// A cell that is not empty never becomes empty again, and an instance stays.
pub proof fn lemma_after_keeps_cell<F, V>(s: Seq<Entry<F, V>>, event: Event<V>, key: u64)
    requires
        distinct_keys(s),
        registered(s, key),
    ensures
        !(entry_of(s, key).cell is Empty) ==> !(entry_of(after(s, event), key).cell is Empty),
        entry_of(s, key).cell is Ready ==> entry_of(after(s, event), key).cell == entry_of(
            s,
            key,
        ).cell,
{
    match event {
        Event::Get(k) => {
            if registered(s, k) {
                lemma_with_cell(s, k, Cell::<V>::Pending);
            }
        },
        Event::Fulfil(k, value) => {
            if registered(s, k) {
                lemma_with_cell(s, k, Cell::Ready(value));
            }
        },
    }
}

/// Once a key's cell is not empty, no later lookup runs its factory.
pub proof fn lemma_not_constructed_again<F, V>(
    s: Seq<Entry<F, V>>,
    events: Seq<Event<V>>,
    key: u64,
)
    requires
        distinct_keys(s),
        registered(s, key),
        !(entry_of(s, key).cell is Empty),
    ensures
        constructions(s, events, key) == 0,
    decreases events.len(),
{
    if events.len() > 0 {
        lemma_after_keeps_keys(s, events[0]);
        lemma_after_keeps_cell(s, events[0], key);
        lemma_not_constructed_again(after(s, events[0]), events.drop_first(), key);
    }
}

/// Whatever lookups and completions arrive, in whatever order, a key's
/// factory is run at most once.
pub proof fn lemma_constructed_at_most_once<F, V>(
    s: Seq<Entry<F, V>>,
    events: Seq<Event<V>>,
    key: u64,
)
    requires
        distinct_keys(s),
    ensures
        constructions(s, events, key) <= 1,
    decreases events.len(),
{
    if events.len() > 0 {
        let next = after(s, events[0]);
        lemma_after_keeps_keys(s, events[0]);
        if constructs(s, events[0], key) {
            lemma_with_cell(s, key, Cell::<V>::Pending);
            lemma_not_constructed_again(next, events.drop_first(), key);
        } else {
            lemma_constructed_at_most_once(next, events.drop_first(), key);
        }
    }
}

/// Where a key's cell is empty and the key is looked up at least once, its
/// factory is run exactly once.
pub proof fn lemma_constructed_exactly_once<F, V>(
    s: Seq<Entry<F, V>>,
    events: Seq<Event<V>>,
    key: u64,
)
    requires
        distinct_keys(s),
        registered(s, key),
        entry_of(s, key).cell is Empty,
        exists|i: int| 0 <= i < events.len() && events[i] == Event::<V>::Get(key),
    ensures
        constructions(s, events, key) == 1,
    decreases events.len(),
{
    let i = choose|i: int| 0 <= i < events.len() && events[i] == Event::<V>::Get(key);
    let next = after(s, events[0]);
    lemma_after_keeps_keys(s, events[0]);
    if constructs(s, events[0], key) {
        lemma_with_cell(s, key, Cell::<V>::Pending);
        lemma_not_constructed_again(next, events.drop_first(), key);
    } else {
        assert(i > 0);
        assert(events.drop_first()[i - 1] == events[i]);
        match events[0] {
            Event::Get(k) => {
                if registered(s, k) {
                    lemma_with_cell(s, k, Cell::<V>::Pending);
                }
            },
            Event::Fulfil(k, value) => {
                if registered(s, k) {
                    lemma_with_cell(s, k, Cell::Ready(value));
                }
            },
        }
        lemma_constructed_exactly_once(next, events.drop_first(), key);
    }
}

/// Once a key's cell holds an instance, it holds that instance after any
/// events: every later lookup answers `Ready` and finds the same instance.
pub proof fn lemma_instance_stays<F, V>(s: Seq<Entry<F, V>>, events: Seq<Event<V>>, key: u64)
    requires
        distinct_keys(s),
        registered(s, key),
        entry_of(s, key).cell is Ready,
    ensures
        registered(after_all(s, events), key),
        entry_of(after_all(s, events), key).cell == entry_of(s, key).cell,
        answer(after_all(s, events), key) == Step::Ready,
    decreases events.len(),
{
    if events.len() > 0 {
        lemma_after_keeps_keys(s, events[0]);
        lemma_after_keeps_cell(s, events[0], key);
        lemma_instance_stays(after(s, events[0]), events.drop_first(), key);
    }
}

/// A service built before serving starts is not built again: after its
/// lookup and the completion that follows, its cell holds the instance, and
/// no later event runs its factory.
pub proof fn lemma_prewarmed_is_not_rebuilt<F, V>(
    s: Seq<Entry<F, V>>,
    key: u64,
    value: V,
    events: Seq<Event<V>>,
)
    requires
        distinct_keys(s),
        registered(s, key),
        entry_of(s, key).cell is Empty,
    ensures
        answer(s, key) == Step::Construct,
        entry_of(after_fulfil(after_get(s, key), key, value), key).cell == Cell::Ready(value),
        constructions(after_fulfil(after_get(s, key), key, value), events, key) == 0,
{
    let s1 = after_get(s, key);
    lemma_with_cell(s, key, Cell::<V>::Pending);
    let s2 = after_fulfil(s1, key, value);
    lemma_with_cell(s1, key, Cell::Ready(value));
    lemma_not_constructed_again(s2, events, key);
}

/// A lookup of one key does not touch another: while the factory of `a`
/// runs, a lookup of `b` is answered as it would have been before, so a
/// factory may look up a service other than its own without waiting on
/// itself.
pub proof fn lemma_independent_lookup<F, V>(s: Seq<Entry<F, V>>, a: u64, b: u64)
    requires
        distinct_keys(s),
        registered(s, a),
        registered(s, b),
        a != b,
    ensures
        registered(after_get(s, a), b),
        entry_of(after_get(s, a), b) == entry_of(s, b),
        answer(after_get(s, a), b) == answer(s, b),
{
    lemma_with_cell(s, a, Cell::<V>::Pending);
}

/// The entries that a map holds under the keys of a list, in the list's
/// order.
pub open spec fn listed<F, V>(order: Seq<u64>, slots: Map<u64, Entry<F, V>>) -> Seq<Entry<F, V>> {
    Seq::new(order.len(), |i: int| slots[order[i]])
}

/// Whether a list names each key of a map once, and the map holds each
/// entry under its own key.
pub open spec fn indexed<F, V>(order: Seq<u64>, slots: Map<u64, Entry<F, V>>) -> bool {
    &&& forall|i: int, j: int| 0 <= i < j < order.len() ==> order[i] != order[j]
    &&& forall|i: int|
        0 <= i < order.len() ==> slots.contains_key(#[trigger] order[i]) && slots[order[i]].key
            == order[i]
    &&& forall|k: u64| #[trigger] slots.contains_key(k) ==> order.contains(k)
}

/// The listed entries have distinct keys; a key is registered among them
/// exactly if the map holds it, and its entry is the one that the map holds.
pub proof fn lemma_listed<F, V>(order: Seq<u64>, slots: Map<u64, Entry<F, V>>)
    requires
        indexed(order, slots),
    ensures
        distinct_keys(listed(order, slots)),
        forall|k: u64| registered(listed(order, slots), k) == #[trigger] slots.contains_key(k),
        forall|k: u64| #[trigger]
            slots.contains_key(k) ==> entry_of(listed(order, slots), k) == slots[k] && 0
                <= position(listed(order, slots), k) < order.len() && order[position(
                listed(order, slots),
                k,
            )] == k,
{
    let s = listed(order, slots);
    assert forall|i: int, j: int| 0 <= i < j < s.len() implies s[i].key != s[j].key by {
        assert(slots.contains_key(order[i]));
        assert(slots.contains_key(order[j]));
    }
    assert forall|k: u64| registered(s, k) == #[trigger] slots.contains_key(k) by {
        if registered(s, k) {
            let i = position(s, k);
            assert(slots.contains_key(order[i]));
        }
        if slots.contains_key(k) {
            assert(order.contains(k));
            let i = choose|i: int| 0 <= i < order.len() && order[i] == k;
            assert(s[i].key == k);
        }
    }
    assert forall|k: u64| #[trigger] slots.contains_key(k) implies entry_of(s, k) == slots[k] && 0
        <= position(s, k) < order.len() && order[position(s, k)] == k by {
        assert(registered(s, k));
        let i = position(s, k);
        assert(slots.contains_key(order[i]));
    }
}

/// Putting a new entry under a key that the map holds already changes the
/// listed entries at that key's place alone.
pub proof fn lemma_listed_update<F, V>(
    order: Seq<u64>,
    slots: Map<u64, Entry<F, V>>,
    e: Entry<F, V>,
)
    requires
        indexed(order, slots),
        slots.contains_key(e.key),
    ensures
        indexed(order, slots.insert(e.key, e)),
        listed(order, slots.insert(e.key, e)) == listed(order, slots).update(
            position(listed(order, slots), e.key),
            e,
        ),
{
    lemma_listed(order, slots);
    let s = listed(order, slots);
    let after = slots.insert(e.key, e);
    let p = position(s, e.key);
    assert forall|i: int| 0 <= i < order.len() implies after.contains_key(#[trigger] order[i])
        && after[order[i]].key == order[i] by {
        assert(slots.contains_key(order[i]));
    }
    assert forall|k: u64| #[trigger] after.contains_key(k) implies order.contains(k) by {
        assert(slots.contains_key(k));
    }
    assert forall|i: int| 0 <= i < order.len() implies listed(order, after)[i] == s.update(p, e)[i] by {
        assert(slots.contains_key(order[i]));
        if i != p {
            assert(order[i] != order[p]);
        }
    }
    assert(listed(order, after) =~= s.update(p, e));
}

/// Putting an entry under a new key adds it at the end of the listed
/// entries.
pub proof fn lemma_listed_push<F, V>(order: Seq<u64>, slots: Map<u64, Entry<F, V>>, e: Entry<F, V>)
    requires
        indexed(order, slots),
        !slots.contains_key(e.key),
    ensures
        indexed(order.push(e.key), slots.insert(e.key, e)),
        listed(order.push(e.key), slots.insert(e.key, e)) == listed(order, slots).push(e),
{
    let order2 = order.push(e.key);
    let after = slots.insert(e.key, e);
    assert forall|i: int, j: int| 0 <= i < j < order2.len() implies order2[i] != order2[j] by {
        assert(slots.contains_key(order[i]));
        if j < order.len() {
            assert(order[i] != order[j]);
        }
    }
    assert forall|i: int| 0 <= i < order2.len() implies after.contains_key(#[trigger] order2[i])
        && after[order2[i]].key == order2[i] by {
        if i < order.len() {
            assert(slots.contains_key(order[i]));
        }
    }
    assert forall|k: u64| #[trigger] after.contains_key(k) implies order2.contains(k) by {
        if k == e.key {
            assert(order2[order.len() as int] == k);
        } else {
            assert(slots.contains_key(k));
            let i = choose|i: int| 0 <= i < order.len() && order[i] == k;
            assert(order2[i] == k);
        }
    }
    assert forall|i: int| 0 <= i < order2.len() implies listed(order2, after)[i] == listed(
        order,
        slots,
    ).push(e)[i] by {
        if i < order.len() {
            assert(slots.contains_key(order[i]));
        }
    }
    assert(listed(order2, after) =~= listed(order, slots).push(e));
}

/// The registry of factories and instance cells: a hash map from each key
/// to its entry, and the keys in the order of their registration.
pub struct LazyDependencyContainer<F, V> {
    slots: HashMap<u64, Entry<F, V>>,
    order: Vec<u64>,
}

impl<F, V> LazyDependencyContainer<F, V> {
    /// The entries, in the order of registration.
    pub closed spec fn view(&self) -> Seq<Entry<F, V>> {
        listed(self.order@, self.slots@)
    }

    /// Whether the container is well formed: each registered key has one
    /// entry, and with it one factory and one cell.
    pub closed spec fn wf(&self) -> bool {
        indexed(self.order@, self.slots@)
    }

    /// A well-formed container has no key twice.
    pub proof fn lemma_wf(&self)
        requires
            self.wf(),
        ensures
            distinct_keys(self@),
    {
        lemma_listed(self.order@, self.slots@);
    }

    /// A container without any registration.
    pub fn empty() -> (c: Self)
        ensures
            c.wf(),
            c@ == Seq::<Entry<F, V>>::empty(),
    {
        let c = LazyDependencyContainer { slots: HashMap::new(), order: Vec::new() };
        proof {
            assert(c@ =~= Seq::<Entry<F, V>>::empty());
        }
        c
    }

    /// A container that holds the given declarations, registered in order.
    pub fn new(defs: Vec<StateDef<F>>) -> (c: Self)
        ensures
            c.wf(),
            c@ == after_register_all(Seq::<Entry<F, V>>::empty(), defs@),
    {
        let ghost all = defs@;
        let mut c: Self = Self::empty();
        let mut defs = defs;
        let ghost mut k: int = 0;
        while defs.len() > 0
            invariant
                c.wf(),
                0 <= k,
                k + defs.len() == all.len(),
                defs@ == all.skip(k),
                c@ == after_register_all(Seq::<Entry<F, V>>::empty(), all.take(k)),
            decreases defs.len(),
        {
            let def = defs.remove(0);
            proof {
                assert(def == all[k]);
                assert(defs@ =~= all.skip(k + 1));
                assert(all.take(k + 1).drop_last() =~= all.take(k));
                assert(all.take(k + 1).last() == def);
            }
            c.register(def.type_id, def.prewarm, def.init_fn);
            proof {
                k = k + 1;
            }
        }
        proof {
            assert(all.take(k) =~= all);
        }
        c
    }

    /// Whether a factory is registered under the key.
    pub fn contains(&self, type_id: u64) -> (found: bool)
        requires
            self.wf(),
        ensures
            found == registered(self@, type_id),
    {
        broadcast use group_hash_axioms;

        proof {
            lemma_listed(self.order@, self.slots@);
        }
        self.slots.contains_key(&type_id)
    }

    /// Registers a factory under a key, with an empty cell. A key that is
    /// registered already gets the new factory and flag, and its cell is
    /// emptied.
    pub fn register(&mut self, type_id: u64, prewarm: bool, init: F)
        requires
            old(self).wf(),
        ensures
            final(self).wf(),
            final(self)@ == after_register(old(self)@, type_id, prewarm, init),
    {
        broadcast use group_hash_axioms;

        let entry = Entry { key: type_id, prewarm, factory: init, cell: Cell::Empty };
        proof {
            lemma_listed(self.order@, self.slots@);
        }
        if self.slots.contains_key(&type_id) {
            proof {
                lemma_listed_update(self.order@, self.slots@, entry);
            }
            self.slots.insert(type_id, entry);
        } else {
            proof {
                lemma_listed_push(self.order@, self.slots@, entry);
            }
            self.slots.insert(type_id, entry);
            self.order.push(type_id);
        }
    }

    /// Puts a cell in the place of a registered key's cell.
    fn set_cell(&mut self, type_id: u64, cell: Cell<V>)
        requires
            old(self).wf(),
            registered(old(self)@, type_id),
        ensures
            final(self).wf(),
            final(self)@ == with_cell(old(self)@, type_id, cell),
    {
        broadcast use group_hash_axioms;

        proof {
            lemma_listed(self.order@, self.slots@);
        }
        let ghost before = self.slots@;
        let Entry { key, prewarm, factory, cell: _ } = self.slots.remove(&type_id).unwrap();
        let entry = Entry { key, prewarm, factory, cell };
        proof {
            lemma_listed_update(self.order@, before, entry);
            assert(before.remove(type_id).insert(type_id, entry) =~= before.insert(type_id, entry));
        }
        self.slots.insert(type_id, entry);
    }

    /// Looks a key up: tells the caller whether the instance is there,
    /// whether another caller is building it, or whether the caller is to
    /// build it, in which case the cell is marked as under construction.
    pub fn get(&mut self, type_id: u64) -> (step: Step)
        requires
            old(self).wf(),
            registered(old(self)@, type_id),
        ensures
            final(self).wf(),
            step == answer(old(self)@, type_id),
            final(self)@ == after_get(old(self)@, type_id),
    {
        broadcast use group_hash_axioms;

        proof {
            lemma_listed(self.order@, self.slots@);
        }
        let step = match &self.slots.get(&type_id).unwrap().cell {
            Cell::Empty => Step::Construct,
            Cell::Pending => Step::Wait,
            Cell::Ready(_) => Step::Ready,
        };
        if step == Step::Construct {
            self.set_cell(type_id, Cell::Pending);
        }
        step
    }

    /// Hands back the instance built for a key. It is stored if the key's
    /// cell is under construction; the result tells whether it was.
    pub fn fulfil(&mut self, type_id: u64, value: V) -> (stored: bool)
        requires
            old(self).wf(),
        ensures
            final(self).wf(),
            stored == (registered(old(self)@, type_id) && entry_of(
                old(self)@,
                type_id,
            ).cell is Pending),
            final(self)@ == after_fulfil(old(self)@, type_id, value),
    {
        broadcast use group_hash_axioms;

        proof {
            lemma_listed(self.order@, self.slots@);
        }
        let pending = match self.slots.get(&type_id) {
            Some(entry) => match &entry.cell {
                Cell::Pending => true,
                _ => false,
            },
            None => false,
        };
        if pending {
            self.set_cell(type_id, Cell::Ready(value));
        }
        pending
    }

    /// The factory registered under a key.
    pub fn factory(&self, type_id: u64) -> (init: &F)
        requires
            self.wf(),
            registered(self@, type_id),
        ensures
            *init == entry_of(self@, type_id).factory,
    {
        broadcast use group_hash_axioms;

        proof {
            lemma_listed(self.order@, self.slots@);
        }
        &self.slots.get(&type_id).unwrap().factory
    }

    /// The instance of a key, if its cell holds one.
    pub fn instance(&self, type_id: u64) -> (found: Option<&V>)
        requires
            self.wf(),
        ensures
            match found {
                Some(v) => registered(self@, type_id) && entry_of(self@, type_id).cell
                    == Cell::Ready(*v),
                None => !registered(self@, type_id) || !(entry_of(self@, type_id).cell is Ready),
            },
    {
        broadcast use group_hash_axioms;

        proof {
            lemma_listed(self.order@, self.slots@);
        }
        match self.slots.get(&type_id) {
            Some(entry) => match &entry.cell {
                Cell::Ready(v) => Some(v),
                _ => None,
            },
            None => None,
        }
    }

    /// The keys to build before serving starts: those flagged for it, in the
    /// order of registration.
    pub fn prewarm_all(&self) -> (keys: Vec<u64>)
        requires
            self.wf(),
        ensures
            keys@ == prewarm_keys(self@),
    {
        broadcast use group_hash_axioms;

        let mut keys: Vec<u64> = Vec::new();
        let mut i: usize = 0;
        while i < self.order.len()
            invariant
                i <= self.order.len(),
                self.wf(),
                keys@ == prewarm_keys(self@.take(i as int)),
            decreases self.order.len() - i,
        {
            let key = self.order[i];
            proof {
                let next = self@.take(i + 1);
                assert(next.drop_last() =~= self@.take(i as int));
                assert(next.last() == self.slots@[key]);
                assert(self.slots@.contains_key(self.order@[i as int]));
            }
            if self.slots.get(&key).unwrap().prewarm {
                keys.push(key);
            }
            i += 1;
        }
        proof {
            assert(self@.take(i as int) =~= self@);
        }
        keys
    }
}

} // verus!
