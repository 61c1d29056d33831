//! A map with text keys, kept in key order.

use crate::text::chars_of;
use vstd::prelude::*;

verus! {

/// The order of two texts: character by character, a proper beginning first.
pub open spec fn text_lt(a: Seq<char>, b: Seq<char>) -> bool
    decreases a.len(),
{
    if b.len() == 0 {
        false
    } else if a.len() == 0 {
        true
    } else if a[0] == b[0] {
        text_lt(a.drop_first(), b.drop_first())
    } else {
        a[0] < b[0]
    }
}

proof fn lemma_text_lt_irreflexive(a: Seq<char>)
    ensures
        !text_lt(a, a),
    decreases a.len(),
{
    if a.len() > 0 {
        lemma_text_lt_irreflexive(a.drop_first());
    }
}

/// The order of texts is a strict total order.
pub proof fn law_text_order(a: Seq<char>, b: Seq<char>, c: Seq<char>)
    ensures
        !text_lt(a, a),
        text_lt(a, b) ==> !text_lt(b, a),
        text_lt(a, b) && text_lt(b, c) ==> text_lt(a, c),
        text_lt(a, b) || a == b || text_lt(b, a),
    decreases a.len() + b.len() + c.len(),
{
    if a.len() == 0 && b.len() == 0 {
        assert(a =~= b);
    }
    lemma_text_lt_irreflexive(a);
    if a.len() > 0 && b.len() > 0 {
        let a1 = a.drop_first();
        let b1 = b.drop_first();
        let c1 = if c.len() > 0 { c.drop_first() } else { c };
        law_text_order(a1, b1, c1);
        if a1 == b1 && a[0] == b[0] {
            assert(a =~= seq![a[0]] + a1);
            assert(b =~= seq![b[0]] + b1);
        }
    }
}

/// How one text stands to another in the order of texts.
#[derive(Clone, Copy, PartialEq, Eq, Structural)]
enum Order {
    Before,
    Same,
    After,
}

/// Places `a` before, at or after `b`.
fn text_order(a: &str, b: &str) -> (res: Order)
    ensures
        match res {
            Order::Before => text_lt(a@, b@),
            Order::Same => a@ == b@,
            Order::After => text_lt(b@, a@),
        },
{
    let left = chars_of(a);
    let right = chars_of(b);
    let mut i: usize = 0;
    assert(a@.skip(0) =~= a@);
    assert(b@.skip(0) =~= b@);
    while i < left.len() && i < right.len()
        invariant
            left@ == a@,
            right@ == b@,
            i <= a@.len(),
            i <= b@.len(),
            a@.take(i as int) == b@.take(i as int),
            text_lt(a@, b@) == text_lt(a@.skip(i as int), b@.skip(i as int)),
            text_lt(b@, a@) == text_lt(b@.skip(i as int), a@.skip(i as int)),
        decreases a@.len() - i,
    {
        if left[i] < right[i] {
            return Order::Before;
        }
        if right[i] < left[i] {
            return Order::After;
        }
        proof {
            assert(a@.skip(i as int).drop_first() =~= a@.skip(i + 1));
            assert(b@.skip(i as int).drop_first() =~= b@.skip(i + 1));
            assert(a@.take(i + 1) =~= a@.take(i as int).push(a@[i as int]));
            assert(b@.take(i + 1) =~= b@.take(i as int).push(b@[i as int]));
        }
        i = i + 1;
    }
    if i < right.len() {
        Order::Before
    } else if i < left.len() {
        Order::After
    } else {
        assert(a@ =~= a@.take(i as int));
        assert(b@ =~= b@.take(i as int));
        Order::Same
    }
}

/// Entries whose keys rise strictly, so that no key occurs twice.
pub open spec fn keys_rise<V>(entries: Seq<(Seq<char>, V)>) -> bool {
    forall|i: int, j: int|
        0 <= i < j < entries.len() ==> text_lt(#[trigger] entries[i].0, #[trigger] entries[j].0)
}

/// The map that a sequence of entries stands for.
pub open spec fn entry_map<V>(entries: Seq<(Seq<char>, V)>) -> Map<Seq<char>, V> {
    Map::new(
        |k: Seq<char>| exists|i: int| 0 <= i < entries.len() && (#[trigger] entries[i]).0 == k,
        |k: Seq<char>|
            entries[choose|i: int| 0 <= i < entries.len() && (#[trigger] entries[i]).0 == k].1,
    )
}

/// A map from texts to values. Its entries are kept, and walked, in key order.
#[derive(Debug)]
pub struct StringMap<V> {
    items: Vec<(String, V)>,
}

impl<V> StringMap<V> {
    /// The entries in key order.
    pub closed spec fn entries(&self) -> Seq<(Seq<char>, V)> {
        self.items@.map_values(|e: (String, V)| (e.0@, e.1))
    }

    #[verifier::type_invariant]
    spec fn sorted(self) -> bool {
        keys_rise(self.entries())
    }
}

impl<V> View for StringMap<V> {
    type V = Map<Seq<char>, V>;

    open spec fn view(&self) -> Map<Seq<char>, V> {
        entry_map(self.entries())
    }
}

/// In entries whose keys rise, an entry is what its key maps to.
pub proof fn lemma_entry_is_mapped<V>(entries: Seq<(Seq<char>, V)>, i: int)
    requires
        keys_rise(entries),
        0 <= i < entries.len(),
    ensures
        entry_map(entries).contains_key(entries[i].0),
        entry_map(entries)[entries[i].0] == entries[i].1,
{
    let k = entries[i].0;
    let j = choose|j: int| 0 <= j < entries.len() && (#[trigger] entries[j]).0 == k;
    lemma_text_lt_irreflexive(k);
    if j < i {
        assert(text_lt(entries[j].0, entries[i].0));
    } else if i < j {
        assert(text_lt(entries[i].0, entries[j].0));
    }
}

/// A map holds as many keys as entries stand for it.
pub proof fn lemma_entry_map_len<V>(entries: Seq<(Seq<char>, V)>)
    requires
        keys_rise(entries),
    ensures
        entry_map(entries).dom().finite(),
        entry_map(entries).len() == entries.len(),
    decreases entries.len(),
{
    if entries.len() == 0 {
        assert(entry_map(entries).dom() =~= Set::empty());
    } else {
        let front = entries.drop_last();
        let (k, value) = entries.last();
        assert(keys_rise(front)) by {
            assert forall|i: int, j: int| 0 <= i < j < front.len() implies text_lt(
                #[trigger] front[i].0,
                #[trigger] front[j].0,
            ) by {
                assert(text_lt(entries[i].0, entries[j].0));
            }
        }
        lemma_entry_map_len(front);
        assert(entries =~= front.insert(front.len() as int, (k, value)));
        lemma_entries_insert(front, entries, front.len() as int, k, value, false);
        assert(!entry_map(front).contains_key(k)) by {
            if entry_map(front).contains_key(k) {
                let i = choose|i: int| 0 <= i < front.len() && (#[trigger] front[i]).0 == k;
                assert(text_lt(entries[i].0, entries[entries.len() - 1].0));
                lemma_text_lt_irreflexive(k);
            }
        }
        assert(entry_map(entries).dom() =~= entry_map(front).dom().insert(k));
    }
}

/// Changing every value changes the map that the entries stand for in the same
/// way.
pub proof fn lemma_entry_map_values<V, W>(entries: Seq<(Seq<char>, V)>, f: spec_fn(V) -> W)
    requires
        keys_rise(entries),
    ensures
        keys_rise(entries.map_values(|e: (Seq<char>, V)| (e.0, f(e.1)))),
        entry_map(entries.map_values(|e: (Seq<char>, V)| (e.0, f(e.1)))) == entry_map(
            entries,
        ).map_values(f),
{
    let changed = entries.map_values(|e: (Seq<char>, V)| (e.0, f(e.1)));
    assert forall|i: int, j: int| 0 <= i < j < changed.len() implies text_lt(
        #[trigger] changed[i].0,
        #[trigger] changed[j].0,
    ) by {
        assert(text_lt(entries[i].0, entries[j].0));
    }
    let left = entry_map(changed);
    let right = entry_map(entries).map_values(f);
    assert forall|k: Seq<char>|
        #![trigger left.dom().contains(k)]
        #![trigger right.dom().contains(k)]
        #![trigger left[k]]
        #![trigger right[k]]
        left.dom().contains(k) == right.dom().contains(k) && (left.dom().contains(k) ==> left[k]
            == right[k]) by {
        if left.dom().contains(k) {
            let i = choose|i: int| 0 <= i < changed.len() && (#[trigger] changed[i]).0 == k;
            assert(entries[i].0 == k);
            lemma_entry_is_mapped(entries, i);
            lemma_entry_is_mapped(changed, i);
        }
        if right.dom().contains(k) {
            let i = choose|i: int| 0 <= i < entries.len() && (#[trigger] entries[i]).0 == k;
            assert(changed[i].0 == k);
        }
    }
    assert(left =~= right);
}

impl<V> StringMap<V> {
    /// An empty map.
    pub fn new() -> (map: Self)
        ensures
            map.entries() == Seq::<(Seq<char>, V)>::empty(),
            map@ == Map::<Seq<char>, V>::empty(),
    {
        let map = StringMap { items: Vec::new() };
        assert(map.entries() =~= Seq::<(Seq<char>, V)>::empty());
        assert(map@ =~= Map::<Seq<char>, V>::empty());
        map
    }

    /// How many entries the map holds.
    pub fn len(&self) -> (n: usize)
        ensures
            n == self@.len(),
            n == self.entries().len(),
            keys_rise(self.entries()),
    {
        proof {
            use_type_invariant(&*self);
            lemma_entry_map_len(self.entries());
        }
        self.items.len()
    }

    /// Whether the map holds no entry.
    pub fn is_empty(&self) -> (res: bool)
        ensures
            res == (self@.len() == 0),
            res == (self.entries().len() == 0),
    {
        self.len() == 0
    }

    /// The key of the entry at place `i` of the key order.
    pub fn key_at(&self, i: usize) -> (key: &str)
        requires
            i < self.entries().len(),
        ensures
            key@ == self.entries()[i as int].0,
    {
        self.items[i].0.as_str()
    }

    /// The value of the entry at place `i` of the key order.
    pub fn value_at(&self, i: usize) -> (value: &V)
        requires
            i < self.entries().len(),
        ensures
            *value == self.entries()[i as int].1,
    {
        &self.items[i].1
    }

    /// The first place whose key is not below `key`, and whether it holds `key`.
    fn find(&self, key: &str) -> (res: (usize, bool))
        ensures
            res.0 <= self.entries().len(),
            forall|j: int| 0 <= j < res.0 ==> text_lt((#[trigger] self.entries()[j]).0, key@),
            res.1 ==> res.0 < self.entries().len() && self.entries()[res.0 as int].0 == key@,
            forall|j: int|
                (if res.1 { res.0 + 1 } else { res.0 as int }) <= j < self.entries().len()
                    ==> text_lt(key@, (#[trigger] self.entries()[j]).0),
    {
        proof {
            use_type_invariant(&*self);
        }
        let mut i: usize = 0;
        while i < self.items.len()
            invariant
                i <= self.entries().len(),
                self.entries().len() == self.items@.len(),
                keys_rise(self.entries()),
                forall|j: int| 0 <= j < i ==> text_lt((#[trigger] self.entries()[j]).0, key@),
            decreases self.items@.len() - i,
        {
            match text_order(self.items[i].0.as_str(), key) {
                Order::Before => {
                    i = i + 1;
                },
                Order::Same => {
                    return (i, true);
                },
                Order::After => {
                    proof {
                        assert forall|j: int| i <= j < self.entries().len() implies text_lt(
                            key@,
                            (#[trigger] self.entries()[j]).0,
                        ) by {
                            law_text_order(key@, self.entries()[i as int].0, self.entries()[j].0);
                        }
                    }
                    return (i, false);
                },
            }
        }
        (i, false)
    }

    /// The value under `key`, if there is one.
    pub fn get(&self, key: &str) -> (res: Option<&V>)
        ensures
            keys_rise(self.entries()),
            match res {
                Some(value) => self@.contains_key(key@) && *value == self@[key@],
                None => !self@.contains_key(key@),
            },
    {
        proof {
            use_type_invariant(&*self);
        }
        let (i, found) = self.find(key);
        if found {
            proof {
                lemma_entry_is_mapped(self.entries(), i as int);
            }
            Some(&self.items[i].1)
        } else {
            proof {
                lemma_text_lt_irreflexive(key@);
            }
            None
        }
    }

    /// Whether there is a value under `key`.
    pub fn contains_key(&self, key: &str) -> (res: bool)
        ensures
            res == self@.contains_key(key@),
    {
        self.get(key).is_some()
    }

    /// Puts `value` under `key`, in place of any value that was there.
    pub fn insert(&mut self, key: String, value: V)
        ensures
            final(self)@ == old(self)@.insert(key@, value),
            keys_rise(final(self).entries()),
    {
        proof {
            use_type_invariant(&*self);
        }
        let ghost before = self.entries();
        let ghost k = key@;
        let (i, found) = self.find(key.as_str());
        let mut items: Vec<(String, V)> = Vec::new();
        std::mem::swap(&mut items, &mut self.items);
        if found {
            items.set(i, (key, value));
        } else {
            items.insert(i, (key, value));
        }
        let ghost after = items@.map_values(|e: (String, V)| (e.0@, e.1));
        proof {
            if found {
                assert(after =~= before.update(i as int, (k, value)));
            } else {
                assert(after =~= before.insert(i as int, (k, value)));
            }
            assert(keys_rise(after));
            lemma_entries_insert(before, after, i as int, k, value, found);
        }
        self.items = items;
    }
}

impl<V: Clone> Clone for StringMap<V> {
    fn clone(&self) -> (res: Self)
        ensures
            res.entries().len() == self.entries().len(),
            forall|i: int|
                0 <= i < self.entries().len() ==> (#[trigger] res.entries()[i]).0
                    == self.entries()[i].0 && cloned::<V>(self.entries()[i].1, res.entries()[i].1),
    {
        proof {
            use_type_invariant(self);
        }
        let mut items: Vec<(String, V)> = Vec::new();
        let mut i: usize = 0;
        while i < self.items.len()
            invariant
                i <= self.items@.len(),
                items@.len() == i,
                forall|j: int|
                    0 <= j < i ==> (#[trigger] items@[j]).0@ == self.items@[j].0@ && cloned::<V>(
                        self.items@[j].1,
                        items@[j].1,
                    ),
            decreases self.items@.len() - i,
        {
            items.push((self.items[i].0.clone(), self.items[i].1.clone()));
            i = i + 1;
        }
        proof {
            let entries = items@.map_values(|e: (String, V)| (e.0@, e.1));
            assert forall|a: int, b: int| 0 <= a < b < entries.len() implies text_lt(
                #[trigger] entries[a].0,
                #[trigger] entries[b].0,
            ) by {
                assert(text_lt(self.entries()[a].0, self.entries()[b].0));
            }
        }
        StringMap { items }
    }
}

/// Replacing the entry of a key, or adding one where there is none, changes the
/// map that the entries stand for at that key only.
proof fn lemma_entries_insert<V>(
    before: Seq<(Seq<char>, V)>,
    after: Seq<(Seq<char>, V)>,
    i: int,
    k: Seq<char>,
    value: V,
    found: bool,
)
    requires
        keys_rise(before),
        keys_rise(after),
        found ==> 0 <= i < before.len() && before[i].0 == k && after == before.update(
            i,
            (k, value),
        ),
        !found ==> 0 <= i <= before.len() && after == before.insert(i, (k, value)),
    ensures
        entry_map(after) == entry_map(before).insert(k, value),
{
    let left = entry_map(after);
    let right = entry_map(before).insert(k, value);
    assert(after[i] == (k, value));
    lemma_entry_is_mapped(after, i);
    assert forall|key: Seq<char>|
        #![trigger left.dom().contains(key)]
        #![trigger right.dom().contains(key)]
        #![trigger left[key]]
        #![trigger right[key]]
        left.dom().contains(key) == right.dom().contains(key) && (left.dom().contains(key)
            ==> left[key] == right[key]) by {
        if key != k {
            if right.contains_key(key) {
                let j = choose|j: int| 0 <= j < before.len() && (#[trigger] before[j]).0 == key;
                lemma_entry_is_mapped(before, j);
                let j2 = if found || j < i { j } else { j + 1 };
                assert(after[j2] == before[j]);
                lemma_entry_is_mapped(after, j2);
            }
            if left.contains_key(key) {
                let j = choose|j: int| 0 <= j < after.len() && (#[trigger] after[j]).0 == key;
                assert(j != i);
                let j2 = if found || j < i { j } else { j - 1 };
                assert(before[j2] == after[j]);
            }
        }
    }
    assert(left =~= right);
}

/// Where two texts part, the lower character decides; a text comes before every
/// longer text that begins with it.
pub proof fn law_text_order_by_first_difference(
    p: Seq<char>,
    c: char,
    d: char,
    x: Seq<char>,
    y: Seq<char>,
)
    ensures
        c != d ==> (text_lt(p + seq![c] + x, p + seq![d] + y) <==> (c as int) < (d as int)),
        text_lt(p, p + seq![c] + x),
    decreases p.len(),
{
    let a = p + seq![c] + x;
    let b = p + seq![d] + y;
    if p.len() > 0 {
        let q = p.drop_first();
        law_text_order_by_first_difference(q, c, d, x, y);
        assert(a.drop_first() =~= q + seq![c] + x);
        assert(b.drop_first() =~= q + seq![d] + y);
        assert(a[0] == p[0] && b[0] == p[0]);
    } else {
        assert(a[0] == c && b[0] == d);
    }
}

/// The map of entries has a key exactly if an entry has it.
pub proof fn law_entry_map_keys<V>(entries: Seq<(Seq<char>, V)>, k: Seq<char>)
    ensures
        entry_map(entries).contains_key(k) <==> exists|i: int|
            0 <= i < entries.len() && (#[trigger] entries[i]).0 == k,
{
}

} // verus!
