//! A map from texts to values, kept in the order of its keys.
use vstd::prelude::*;
use crate::text::{chars_of, same_text};

verus! {

broadcast use vstd::seq_lib::group_seq_properties;

// ---------------------------------------------------------------------------
// The order of texts
// ---------------------------------------------------------------------------
/// The order of texts by their code points, which is the order of `String`.
pub open spec fn text_lt(a: Seq<char>, b: Seq<char>) -> bool
    decreases a.len(),
{
    if b.len() == 0 {
        false
    } else if a.len() == 0 {
        true
    } else if a[0] == b[0] {
        text_lt(a.drop_first(), b.drop_first())
    } else {
        a[0] < b[0]
    }
}

/// No text comes before itself.
pub proof fn text_lt_irreflexive(a: Seq<char>)
    ensures
        !text_lt(a, a),
    decreases a.len(),
{
    if a.len() > 0 {
        text_lt_irreflexive(a.drop_first());
    }
}

/// The order of texts is transitive.
pub proof fn text_lt_transitive(a: Seq<char>, b: Seq<char>, c: Seq<char>)
    requires
        text_lt(a, b),
        text_lt(b, c),
    ensures
        text_lt(a, c),
    decreases a.len(),
{
    if a.len() > 0 && a[0] == b[0] && b[0] == c[0] {
        text_lt_transitive(a.drop_first(), b.drop_first(), c.drop_first());
    }
}

/// Of two different texts, one comes before the other.
pub proof fn text_lt_total(a: Seq<char>, b: Seq<char>)
    ensures
        a == b || text_lt(a, b) || text_lt(b, a),
    decreases a.len(),
{
    if a.len() > 0 && b.len() > 0 && a[0] == b[0] {
        text_lt_total(a.drop_first(), b.drop_first());
        assert(a =~= seq![a[0]] + a.drop_first());
        assert(b =~= seq![b[0]] + b.drop_first());
    } else if a.len() == 0 && b.len() == 0 {
        assert(a =~= b);
    }
}

/// Whether one text comes before another.
pub fn comes_before(a: &[char], b: &[char]) -> (r: bool)
    ensures
        r == text_lt(a@, b@),
{
    let mut i: usize = 0;
    assert(a@.skip(0) == a@ && b@.skip(0) == b@);
    while i < a.len() && i < b.len()
        invariant
            i <= a@.len(),
            i <= b@.len(),
            text_lt(a@, b@) == text_lt(a@.skip(i as int), b@.skip(i as int)),
        decreases a@.len() - i,
    {
        if a[i] != b[i] {
            return a[i] < b[i];
        }
        assert(a@.skip(i as int).drop_first() == a@.skip(i + 1));
        assert(b@.skip(i as int).drop_first() == b@.skip(i + 1));
        i += 1;
    }
    i < b.len()
}

// ---------------------------------------------------------------------------
// Keys in order
// ---------------------------------------------------------------------------
/// Each text comes before all that follow it.
pub open spec fn increasing(keys: Seq<Seq<char>>) -> bool {
    forall|i: int, j: int| 0 <= i < j < keys.len() ==> text_lt(#[trigger] keys[i], #[trigger] keys[j])
}

/// `keys` holds every text of `dom` once, in order.
pub open spec fn lists_in_order(keys: Seq<Seq<char>>, dom: Set<Seq<char>>) -> bool {
    &&& increasing(keys)
    &&& forall|k: Seq<char>| #[trigger] keys.contains(k) <==> dom.contains(k)
}

/// The texts of a finite set in order.
pub open spec fn in_order(dom: Set<Seq<char>>) -> Seq<Seq<char>> {
    choose|keys: Seq<Seq<char>>| lists_in_order(keys, dom)
}

/// There is only one way to list a set of texts in order.
pub proof fn order_is_unique(a: Seq<Seq<char>>, b: Seq<Seq<char>>, dom: Set<Seq<char>>)
    requires
        lists_in_order(a, dom),
        lists_in_order(b, dom),
    ensures
        a == b,
    decreases a.len(),
{
    if a.len() == 0 || b.len() == 0 {
        if b.len() > 0 {
            assert(b.contains(b[0]));
            assert(a.contains(b[0]));
        }
        if a.len() > 0 {
            assert(a.contains(a[0]));
            assert(b.contains(a[0]));
        }
        assert(a =~= b);
    } else {
        assert(a.contains(a[0]) && b.contains(b[0]));
        assert(a.contains(b[0]) && b.contains(a[0]));
        let i = choose|i: int| 0 <= i < a.len() && a[i] == b[0];
        let j = choose|j: int| 0 <= j < b.len() && b[j] == a[0];
        if a[0] != b[0] {
            assert(text_lt(a[0], a[i]));
            assert(text_lt(b[0], b[j]));
            text_lt_transitive(a[0], b[0], a[0]);
            text_lt_irreflexive(a[0]);
        }
        rest_lists_in_order(a, dom);
        rest_lists_in_order(b, dom);
        order_is_unique(a.drop_first(), b.drop_first(), dom.remove(a[0]));
        assert(a =~= seq![a[0]] + a.drop_first());
        assert(b =~= seq![b[0]] + b.drop_first());
    }
}

proof fn rest_lists_in_order(a: Seq<Seq<char>>, dom: Set<Seq<char>>)
    requires
        a.len() > 0,
        lists_in_order(a, dom),
    ensures
        lists_in_order(a.drop_first(), dom.remove(a[0])),
{
    let rest = a.drop_first();
    assert forall|k: Seq<char>| #[trigger] rest.contains(k) <==> dom.remove(a[0]).contains(k) by {
        if rest.contains(k) {
            let i = choose|i: int| 0 <= i < rest.len() && rest[i] == k;
            assert(a[i + 1] == k);
            assert(a.contains(k));
            assert(text_lt(a[0], a[i + 1]));
            text_lt_irreflexive(a[0]);
        }
        if dom.remove(a[0]).contains(k) {
            assert(a.contains(k));
            let i = choose|i: int| 0 <= i < a.len() && a[i] == k;
            assert(rest[i - 1] == k);
        }
    }
}

/// A list in order is the order of its set, and as long as the set.
pub proof fn order_of_list(keys: Seq<Seq<char>>, dom: Set<Seq<char>>)
    requires
        lists_in_order(keys, dom),
    ensures
        in_order(dom) == keys,
        dom.finite(),
        dom.len() == keys.len(),
{
    order_is_unique(in_order(dom), keys, dom);
    assert(keys.no_duplicates()) by {
        assert forall|i: int, j: int| 0 <= i < keys.len() && 0 <= j < keys.len() && i != j implies keys[i]
            != keys[j] by {
            text_lt_irreflexive(keys[i]);
            if i < j {
                assert(text_lt(keys[i], keys[j]));
            } else {
                assert(text_lt(keys[j], keys[i]));
            }
        }
    }
    keys.unique_seq_to_set();
    assert(keys.to_set() =~= dom) by {
        assert forall|k: Seq<char>| keys.to_set().contains(k) == dom.contains(k) by {
            assert(keys.contains(k) <==> dom.contains(k));
        }
    }
}

/// Where a text belongs in a list in order that does not hold it.
proof fn place_in_order(keys: Seq<Seq<char>>, a: Seq<char>) -> (at: int)
    requires
        increasing(keys),
        !keys.contains(a),
    ensures
        0 <= at <= keys.len(),
        forall|i: int| 0 <= i < at ==> text_lt(#[trigger] keys[i], a),
        forall|i: int| at <= i < keys.len() ==> text_lt(a, #[trigger] keys[i]),
    decreases keys.len(),
{
    if keys.len() == 0 {
        0
    } else {
        let last = keys.last();
        let rest = keys.drop_last();
        assert(keys.contains(last));
        text_lt_total(last, a);
        if text_lt(last, a) {
            assert forall|i: int| 0 <= i < keys.len() implies text_lt(#[trigger] keys[i], a) by {
                if i < keys.len() - 1 {
                    text_lt_transitive(keys[i], last, a);
                }
            }
            keys.len() as int
        } else {
            assert forall|i: int| 0 <= i < rest.len() implies rest[i] != a by {
                assert(keys[i] == rest[i]);
                assert(keys.contains(keys[i]));
            }
            let at = place_in_order(rest, a);
            assert forall|i: int| 0 <= i < at implies text_lt(#[trigger] keys[i], a) by {
                assert(keys[i] == rest[i]);
            }
            assert forall|i: int| at <= i < keys.len() implies text_lt(a, #[trigger] keys[i]) by {
                if i < rest.len() {
                    assert(keys[i] == rest[i]);
                }
            }
            at
        }
    }
}

/// The texts of every finite set can be listed in order.
pub proof fn order_exists(dom: Set<Seq<char>>)
    requires
        dom.finite(),
    ensures
        lists_in_order(in_order(dom), dom),
    decreases dom.len(),
{
    if dom.len() == 0 {
        assert(lists_in_order(Seq::empty(), dom));
    } else {
        let a = dom.choose();
        let rest = dom.remove(a);
        order_exists(rest);
        let keys = in_order(rest);
        assert(!keys.contains(a));
        let at = place_in_order(keys, a);
        let all = keys.take(at).push(a) + keys.skip(at);
        assert forall|i: int, j: int| 0 <= i < j < all.len() implies text_lt(
            #[trigger] all[i],
            #[trigger] all[j],
        ) by {
            let x = if i < at {
                i
            } else {
                i - 1
            };
            let y = if j < at {
                j
            } else {
                j - 1
            };
            assert(i != at ==> all[i] == keys[x]);
            assert(j != at ==> all[j] == keys[y]);
        }
        assert forall|k: Seq<char>| #[trigger] all.contains(k) <==> dom.contains(k) by {
            if all.contains(k) {
                let i = choose|i: int| 0 <= i < all.len() && all[i] == k;
                if i < at {
                    assert(keys[i] == k);
                } else if i > at {
                    assert(keys[i - 1] == k);
                }
                assert(k == a || keys.contains(k));
                assert(k != a ==> rest.contains(k));
            }
            if dom.contains(k) {
                if k == a {
                    assert(all[at] == a);
                } else {
                    assert(rest.contains(k));
                    assert(keys.contains(k));
                    let i = choose|i: int| 0 <= i < keys.len() && keys[i] == k;
                    if i < at {
                        assert(all[i] == k);
                    } else {
                        assert(all[i + 1] == k);
                    }
                }
            }
        }
        assert(lists_in_order(all, dom));
    }
}

// ---------------------------------------------------------------------------
// The map
// ---------------------------------------------------------------------------
/// A key and what it stands for.
pub struct Entry<V> {
    pub(crate) key: String,
    pub(crate) value: V,
}

/// A map from texts to values. No key occurs twice, and the entries stand in
/// the order of their keys.
pub struct StringMap<V> {
    pub(crate) entries: Vec<Entry<V>>,
}

/// The keys of a sequence of entries.
pub(crate) open spec fn keys_of<V>(entries: Seq<Entry<V>>) -> Seq<Seq<char>> {
    entries.map_values(|e: Entry<V>| e.key@)
}

/// Where `key` stands among `entries`.
pub(crate) open spec fn position<V>(entries: Seq<Entry<V>>, key: Seq<char>) -> int {
    keys_of(entries).index_of(key)
}

/// What `entries` map each key to.
pub(crate) open spec fn contents<V>(entries: Seq<Entry<V>>) -> Map<Seq<char>, V> {
    Map::new(
        |k: Seq<char>| keys_of(entries).contains(k),
        |k: Seq<char>| entries[position(entries, k)].value,
    )
}

impl<V> StringMap<V> {
    #[verifier::type_invariant]
    pub(crate) closed spec fn sorted(self) -> bool {
        increasing(keys_of(self.entries@))
    }

    /// The keys of the map in order.
    pub closed spec fn keys(self) -> Seq<Seq<char>> {
        keys_of(self.entries@)
    }
}

impl<V> View for StringMap<V> {
    type V = Map<Seq<char>, V>;

    closed spec fn view(&self) -> Map<Seq<char>, V> {
        contents(self.entries@)
    }
}

/// A map holds what its entries hold.
pub(crate) proof fn view_is_contents<V>(m: StringMap<V>)
    ensures
        m@ == contents(m.entries@),
{
}

/// The entries of a map are its keys in order, each with what it stands for.
pub(crate) proof fn entry_is_listed<V>(m: StringMap<V>, i: int)
    requires
        m.sorted(),
        0 <= i < m.keys().len(),
    ensures
        m.keys().len() == m.entries@.len(),
        m.keys()[i] == m.entries@[i].key@,
        m@.contains_key(m.keys()[i]),
        m@[m.keys()[i]] == m.entries@[i].value,
{
    entry_of_key(m.entries@, i);
}

/// In a sorted list of entries, each one is what its key stands for.
proof fn entry_of_key<V>(entries: Seq<Entry<V>>, i: int)
    requires
        increasing(keys_of(entries)),
        0 <= i < entries.len(),
    ensures
        contents(entries).contains_key(entries[i].key@),
        contents(entries)[entries[i].key@] == entries[i].value,
        position(entries, entries[i].key@) == i,
{
    let keys = keys_of(entries);
    assert(keys[i] == entries[i].key@);
    assert(keys.contains(keys[i]));
    let j = keys.index_of(keys[i]);
    assert(0 <= j < keys.len() && keys[j] == keys[i]);
    text_lt_irreflexive(keys[i]);
    if i < j {
        assert(text_lt(keys[i], keys[j]));
    } else if j < i {
        assert(text_lt(keys[j], keys[i]));
    }
}

impl<V> StringMap<V> {
    /// The empty map.
    pub fn new() -> (r: Self)
        ensures
            r@ == Map::<Seq<char>, V>::empty(),
    {
        let r = StringMap { entries: Vec::new() };
        assert(r@ =~= Map::<Seq<char>, V>::empty());
        r
    }

    /// How many keys the map holds.
    pub fn len(&self) -> (r: usize)
        ensures
            r == self@.dom().len(),
            r == self.keys().len(),
            self.keys() == in_order(self@.dom()),
            lists_in_order(self.keys(), self@.dom()),
            self@.dom().finite(),
    {
        proof {
            use_type_invariant(self);
            order_of_list(self.keys(), self@.dom());
        }
        self.entries.len()
    }

    /// Whether the map holds no key.
    pub fn is_empty(&self) -> (r: bool)
        ensures
            r == (self@ == Map::<Seq<char>, V>::empty()),
    {
        if self.entries.len() == 0 {
            assert(self@ =~= Map::<Seq<char>, V>::empty());
            true
        } else {
            assert(keys_of(self.entries@).contains(keys_of(self.entries@)[0]));
            assert(self@.contains_key(self.entries@[0].key@));
            false
        }
    }

    /// The key number `i` in the order of keys.
    pub fn key_at(&self, i: usize) -> (r: &String)
        requires
            i < self.keys().len(),
        ensures
            r@ == self.keys()[i as int],
            self@.contains_key(r@),
    {
        proof {
            use_type_invariant(self);
            entry_of_key(self.entries@, i as int);
        }
        &self.entries[i].key
    }

    /// The value for the key number `i` in the order of keys.
    pub fn value_at(&self, i: usize) -> (r: &V)
        requires
            i < self.keys().len(),
        ensures
            self@.contains_key(self.keys()[i as int]),
            *r == self@[self.keys()[i as int]],
    {
        proof {
            use_type_invariant(self);
            entry_of_key(self.entries@, i as int);
        }
        &self.entries[i].value
    }

    /// How many keys come before `key`.
    fn rank(&self, key: &str) -> (r: usize)
        ensures
            r <= self.entries@.len(),
            forall|i: int| 0 <= i < r ==> text_lt((#[trigger] self.entries@[i]).key@, key@),
            forall|i: int| r <= i < self.entries@.len() ==> !text_lt((#[trigger] self.entries@[i]).key@, key@),
    {
        proof {
            use_type_invariant(self);
        }
        let wanted = chars_of(key);
        let mut low: usize = 0;
        let mut high: usize = self.entries.len();
        while low < high
            invariant
                wanted@ == key@,
                low <= high <= self.entries@.len(),
                increasing(keys_of(self.entries@)),
                forall|i: int| 0 <= i < low ==> text_lt((#[trigger] self.entries@[i]).key@, key@),
                forall|i: int|
                    high <= i < self.entries@.len() ==> !text_lt((#[trigger] self.entries@[i]).key@, key@),
            decreases high - low,
        {
            let mid: usize = low + (high - low) / 2;
            let there = chars_of(self.entries[mid].key.as_str());
            let ghost keys = keys_of(self.entries@);
            assert(keys[mid as int] == there@);
            if comes_before(there.as_slice(), wanted.as_slice()) {
                assert forall|i: int| 0 <= i < mid + 1 implies text_lt(
                    (#[trigger] self.entries@[i]).key@,
                    key@,
                ) by {
                    assert(keys[i] == self.entries@[i].key@);
                    if i < mid {
                        text_lt_transitive(keys[i], keys[mid as int], key@);
                    }
                }
                low = mid + 1;
            } else {
                assert forall|i: int| mid <= i < self.entries@.len() implies !text_lt(
                    (#[trigger] self.entries@[i]).key@,
                    key@,
                ) by {
                    assert(keys[i] == self.entries@[i].key@);
                    if mid < i && text_lt(keys[i], key@) {
                        text_lt_transitive(keys[mid as int], keys[i], key@);
                    }
                }
                high = mid;
            }
        }
        low
    }

    /// Where `key` stands, if the map holds it.
    fn find(&self, key: &str) -> (r: Option<usize>)
        ensures
            match r {
                Some(i) => i < self.entries@.len() && self.entries@[i as int].key@ == key@
                    && self@.contains_key(key@) && self@[key@] == self.entries@[i as int].value,
                None => !self@.contains_key(key@),
            },
    {
        proof {
            use_type_invariant(self);
        }
        let i: usize = self.rank(key);
        if i < self.entries.len() && same_text(self.entries[i].key.as_str(), key) {
            proof {
                entry_of_key(self.entries@, i as int);
            }
            Some(i)
        } else {
            proof {
                let keys = keys_of(self.entries@);
                if keys.contains(key@) {
                    let j = choose|j: int| 0 <= j < keys.len() && keys[j] == key@;
                    assert(self.entries@[j].key@ == key@);
                    text_lt_irreflexive(key@);
                    assert(i < j);
                    assert(text_lt(keys[i as int], keys[j]));
                    assert(keys[i as int] == self.entries@[i as int].key@);
                }
            }
            None
        }
    }

    /// What `key` stands for, if the map holds it.
    pub fn get(&self, key: &str) -> (r: Option<&V>)
        ensures
            match r {
                Some(v) => self@.contains_key(key@) && *v == self@[key@],
                None => !self@.contains_key(key@),
            },
    {
        match self.find(key) {
            Some(i) => Some(&self.entries[i].value),
            None => None,
        }
    }

    /// Whether the map holds `key`.
    pub fn contains_key(&self, key: &str) -> (r: bool)
        ensures
            r == self@.contains_key(key@),
    {
        self.find(key).is_some()
    }

    /// Lets `key` stand for `value`, in place of what it stood for before.
    pub fn insert(&mut self, key: String, value: V)
        ensures
            final(self)@ == old(self)@.insert(key@, value),
    {
        proof {
            use_type_invariant(&*self);
        }
        let found = self.find(key.as_str());
        let at: usize = self.rank(key.as_str());
        let ghost before = self.entries@;
        let mut entries: Vec<Entry<V>> = Vec::new();
        std::mem::swap(&mut entries, &mut self.entries);
        let ghost kept = key@;
        match found {
            Some(i) => {
                let _ = entries.remove(i);
                entries.insert(i, Entry { key, value });
                proof {
                    assert(keys_of(entries@) =~= keys_of(before));
                    assert(entries@ =~= before.update(i as int, entries@[i as int]));
                    updated_contents(before, i as int, entries@[i as int]);
                }
            },
            None => {
                let ghost added = Entry { key, value };
                entries.insert(at, Entry { key, value });
                proof {
                    assert(entries@ =~= before.insert(at as int, added));
                    assert forall|i: int| at <= i < before.len() implies text_lt(
                        kept,
                        (#[trigger] before[i]).key@,
                    ) by {
                        assert(keys_of(before)[i] == before[i].key@);
                        assert(keys_of(before).contains(before[i].key@));
                        text_lt_total(kept, before[i].key@);
                    }
                    inserted_contents(before, at as int, added);
                }
            },
        }
        self.entries = entries;
    }

    /// Takes `key` and its value out of the map.
    pub fn remove(&mut self, key: &str) -> (r: Option<V>)
        ensures
            final(self)@ == old(self)@.remove(key@),
            match r {
                Some(v) => old(self)@.contains_key(key@) && v == old(self)@[key@],
                None => !old(self)@.contains_key(key@),
            },
    {
        proof {
            use_type_invariant(&*self);
        }
        match self.find(key) {
            Some(i) => {
                let ghost before = self.entries@;
                let mut entries: Vec<Entry<V>> = Vec::new();
                std::mem::swap(&mut entries, &mut self.entries);
                let entry = entries.remove(i);
                proof {
                    assert(entries@ =~= before.remove(i as int));
                    removed_contents(before, i as int);
                }
                self.entries = entries;
                Some(entry.value)
            },
            None => {
                assert(self@.remove(key@) =~= self@);
                None
            },
        }
    }
}

proof fn updated_contents<V>(before: Seq<Entry<V>>, i: int, added: Entry<V>)
    requires
        increasing(keys_of(before)),
        0 <= i < before.len(),
        before[i].key@ == added.key@,
    ensures
        increasing(keys_of(before.update(i, added))),
        contents(before.update(i, added)) == contents(before).insert(added.key@, added.value),
{
    let after = before.update(i, added);
    assert(keys_of(after) =~= keys_of(before));
    entry_of_key(before, i);
    assert(contents(after) =~= contents(before).insert(added.key@, added.value)) by {
        assert forall|k: Seq<char>| keys_of(before).contains(k) && k != added.key@ implies position(
            before,
            k,
        ) != i by {
            let j = position(before, k);
            assert(keys_of(before)[j] == k);
        }
    }
}

proof fn inserted_contents<V>(before: Seq<Entry<V>>, at: int, added: Entry<V>)
    requires
        increasing(keys_of(before)),
        0 <= at <= before.len(),
        forall|i: int| 0 <= i < at ==> text_lt((#[trigger] before[i]).key@, added.key@),
        forall|i: int| at <= i < before.len() ==> text_lt(added.key@, (#[trigger] before[i]).key@),
    ensures
        increasing(keys_of(before.insert(at, added))),
        contents(before.insert(at, added)) == contents(before).insert(added.key@, added.value),
{
    let after = before.insert(at, added);
    let bk = keys_of(before);
    let ak = keys_of(after);
    assert(ak =~= bk.insert(at, added.key@));
    assert forall|i: int, j: int| 0 <= i < j < ak.len() implies text_lt(
        #[trigger] ak[i],
        #[trigger] ak[j],
    ) by {
        let ib = if i < at { i } else { i - 1 };
        let jb = if j < at { j } else { j - 1 };
        if i == at {
            assert(ak[j] == before[jb].key@);
        } else if j == at {
            assert(ak[i] == before[ib].key@);
        } else {
            assert(ak[i] == bk[ib] && ak[j] == bk[jb]);
        }
    }
    assert(contents(after) =~= contents(before).insert(added.key@, added.value)) by {
        assert(after[at] == added);
        entry_of_key(after, at);
        assert forall|k: Seq<char>| #[trigger] ak.contains(k) <==> bk.contains(k) || k == added.key@ by {
            if ak.contains(k) {
                let i = choose|i: int| 0 <= i < ak.len() && ak[i] == k;
                if i < at {
                    assert(bk[i] == k);
                } else if i > at {
                    assert(bk[i - 1] == k);
                }
            }
            if bk.contains(k) {
                let i = choose|i: int| 0 <= i < bk.len() && bk[i] == k;
                if i < at {
                    assert(ak[i] == k);
                } else {
                    assert(ak[i + 1] == k);
                }
            }
        }
        assert forall|k: Seq<char>| bk.contains(k) && k != added.key@ implies contents(after)[k] == contents(
            before,
        )[k] by {
            let i = position(before, k);
            assert(bk[i] == k && 0 <= i < bk.len());
            let j = if i < at { i } else { i + 1 };
            assert(after[j] == before[i]);
            entry_of_key(after, j);
        }
    }
}

proof fn removed_contents<V>(before: Seq<Entry<V>>, i: int)
    requires
        increasing(keys_of(before)),
        0 <= i < before.len(),
    ensures
        increasing(keys_of(before.remove(i))),
        contents(before.remove(i)) == contents(before).remove(before[i].key@),
{
    let after = before.remove(i);
    let bk = keys_of(before);
    let ak = keys_of(after);
    assert(ak =~= bk.remove(i));
    assert forall|x: int, y: int| 0 <= x < y < ak.len() implies text_lt(#[trigger] ak[x], #[trigger] ak[y]) by {
        let xb = if x < i { x } else { x + 1 };
        let yb = if y < i { y } else { y + 1 };
        assert(ak[x] == bk[xb] && ak[y] == bk[yb]);
    }
    entry_of_key(before, i);
    assert(contents(after) =~= contents(before).remove(before[i].key@)) by {
        assert forall|k: Seq<char>| #[trigger] ak.contains(k) <==> bk.contains(k) && k != before[i].key@ by {
            if ak.contains(k) {
                let x = choose|x: int| 0 <= x < ak.len() && ak[x] == k;
                let xb = if x < i { x } else { x + 1 };
                assert(bk[xb] == k);
                entry_of_key(before, xb);
            }
            if bk.contains(k) && k != before[i].key@ {
                let x = choose|x: int| 0 <= x < bk.len() && bk[x] == k;
                if x < i {
                    assert(ak[x] == k);
                } else {
                    assert(ak[x - 1] == k);
                }
            }
        }
        assert forall|k: Seq<char>| ak.contains(k) implies contents(after)[k] == contents(before)[k] by {
            let x = position(after, k);
            assert(ak[x] == k && 0 <= x < ak.len());
            let xb = if x < i { x } else { x + 1 };
            assert(before[xb] == after[x]);
            entry_of_key(before, xb);
        }
    }
}

// ---------------------------------------------------------------------------
// Laws
// ---------------------------------------------------------------------------
/// Of two texts the one comes first that has the lesser character in the first place where
/// they differ, or that the other only goes on from.
pub proof fn first_difference_decides(start: Seq<char>, a: char, b: char, rest: Seq<char>, other: Seq<char>)
    ensures
        a < b ==> text_lt(start + seq![a] + rest, start + seq![b] + other),
        a > b ==> !text_lt(start + seq![a] + rest, start + seq![b] + other),
        text_lt(start, start + seq![a] + rest),
        !text_lt(start + seq![a] + rest, start),
    decreases start.len(),
{
    let x = start + seq![a] + rest;
    let y = start + seq![b] + other;
    if start.len() > 0 {
        let less = start.drop_first();
        assert(x.drop_first() =~= less + seq![a] + rest);
        assert(y.drop_first() =~= less + seq![b] + other);
        first_difference_decides(less, a, b, rest, other);
    }
}

/// A finite set is listed with each text once, the lesser before the greater.
pub proof fn sets_are_listed_in_order(dom: Set<Seq<char>>, i: int, j: int, k: Seq<char>)
    requires
        dom.finite(),
    ensures
        in_order(dom).contains(k) <==> dom.contains(k),
        0 <= i < j < in_order(dom).len() ==> text_lt(in_order(dom)[i], in_order(dom)[j]) && in_order(dom)[i]
            != in_order(dom)[j],
        in_order(dom).len() == dom.len(),
{
    order_exists(dom);
    order_of_list(in_order(dom), dom);
    if 0 <= i < j < in_order(dom).len() {
        text_lt_irreflexive(in_order(dom)[i]);
    }
}

}
