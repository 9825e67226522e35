//! An ordered table: text keys in ascending order, each with a value.

use vstd::prelude::*;
use vstd::string::*;

verus! {

/// Whether `a` comes before `b`, both read from position `i` on: by the first
/// character that differs, and where there is none by length.
pub open spec fn less_from(a: Seq<char>, b: Seq<char>, i: int) -> bool
    decreases b.len() - i,
{
    if i >= b.len() {
        false
    } else if i >= a.len() {
        true
    } else if a[i] == b[i] {
        less_from(a, b, i + 1)
    } else {
        (a[i] as u32) < (b[i] as u32)
    }
}

/// The order of keys: lexicographic by code point.
pub open spec fn less(a: Seq<char>, b: Seq<char>) -> bool {
    less_from(a, b, 0)
}

proof fn lemma_less_irreflexive(a: Seq<char>, i: int)
    ensures
        !less_from(a, a, i),
    decreases a.len() - i,
{
    if i < a.len() {
        lemma_less_irreflexive(a, i + 1);
    }
}

proof fn lemma_less_transitive(a: Seq<char>, b: Seq<char>, c: Seq<char>, i: int)
    requires
        less_from(a, b, i),
        less_from(b, c, i),
    ensures
        less_from(a, c, i),
    decreases c.len() - i,
{
    if i < a.len() && i < b.len() && i < c.len() && a[i] == b[i] && b[i] == c[i] {
        lemma_less_transitive(a, b, c, i + 1);
    }
}

proof fn lemma_code_points(x: char, y: char)
    ensures
        (x as u32) == (y as u32) ==> x == y,
{
}

proof fn lemma_less_total(a: Seq<char>, b: Seq<char>, i: int)
    requires
        0 <= i,
        i <= a.len(),
        i <= b.len(),
        a.subrange(0, i) == b.subrange(0, i),
        !less_from(a, b, i),
        !less_from(b, a, i),
    ensures
        a == b,
    decreases a.len() - i,
{
    if i < a.len() && i < b.len() {
        lemma_code_points(a[i], b[i]);
        assert(a[i] == b[i]);
        assert(a.subrange(0, i + 1) =~= b.subrange(0, i + 1)) by {
            assert forall|j: int| 0 <= j < i + 1 implies a[j] == b[j] by {
                if j < i {
                    assert(a.subrange(0, i)[j] == a[j]);
                    assert(b.subrange(0, i)[j] == b[j]);
                }
            }
        }
        lemma_less_total(a, b, i + 1);
    } else {
        assert(a =~= a.subrange(0, i));
        assert(b =~= b.subrange(0, i));
    }
}

/// The order of keys is a strict total order.
pub proof fn lemma_less_is_a_strict_total_order(a: Seq<char>, b: Seq<char>, c: Seq<char>)
    ensures
        !less(a, a),
        less(a, b) && less(b, c) ==> less(a, c),
        a == b || less(a, b) || less(b, a),
{
    lemma_less_irreflexive(a, 0);
    if less(a, b) && less(b, c) {
        lemma_less_transitive(a, b, c, 0);
    }
    if !less(a, b) && !less(b, a) {
        assert(a.subrange(0, 0) =~= b.subrange(0, 0));
        lemma_less_total(a, b, 0);
    }
}

/// Whether the key `a` comes before the key `b`.
pub fn text_less(a: &str, b: &str) -> (r: bool)
    ensures
        r == less(a@, b@),
{
    let a_len: usize = a.unicode_len();
    let b_len: usize = b.unicode_len();
    let mut i: usize = 0;
    while i < a_len && i < b_len
        invariant
            a_len == a@.len(),
            b_len == b@.len(),
            i <= a_len,
            i <= b_len,
            less(a@, b@) == less_from(a@, b@, i as int),
        decreases a_len - i,
    {
        let x: char = a.get_char(i);
        let y: char = b.get_char(i);
        if x != y {
            return (x as u32) < (y as u32);
        }
        i += 1;
    }
    i < b_len
}

/// A table from text to values, in ascending order of the keys.
pub struct Table<V> {
    pub entries: Vec<(String, V)>,
}

/// Whether the keys of `entries` ascend strictly.
pub open spec fn ascending<V>(entries: Seq<(String, V)>) -> bool {
    forall|i: int, j: int|
        0 <= i < j < entries.len() ==> less(#[trigger] entries[i].0@, #[trigger] entries[j].0@)
}

/// Whether `entries` holds an entry with the key `k`.
pub open spec fn has_key<V>(entries: Seq<(String, V)>, k: Seq<char>) -> bool {
    exists|i: int| 0 <= i < entries.len() && #[trigger] entries[i].0@ == k
}

/// The position of an entry with the key `k`.
pub open spec fn position<V>(entries: Seq<(String, V)>, k: Seq<char>) -> int {
    choose|i: int| 0 <= i < entries.len() && #[trigger] entries[i].0@ == k
}

/// The entries read as a map.
pub open spec fn contents<V>(entries: Seq<(String, V)>) -> Map<Seq<char>, V> {
    Map::new(
        |k: Seq<char>| has_key(entries, k),
        |k: Seq<char>| entries[position(entries, k)].1,
    )
}

impl<V> View for Table<V> {
    type V = Map<Seq<char>, V>;

    open spec fn view(&self) -> Map<Seq<char>, V> {
        contents(self.entries@)
    }
}

/// In ascending entries, a key has one position.
pub proof fn lemma_position<V>(entries: Seq<(String, V)>, i: int)
    requires
        ascending(entries),
        0 <= i < entries.len(),
    ensures
        has_key(entries, entries[i].0@),
        position(entries, entries[i].0@) == i,
        contents(entries).dom().contains(entries[i].0@),
        contents(entries)[entries[i].0@] == entries[i].1,
{
    let k = entries[i].0@;
    let p = position(entries, k);
    assert(has_key(entries, k));
    assert(0 <= p < entries.len() && entries[p].0@ == k);
    lemma_less_is_a_strict_total_order(k, k, k);
    if p < i {
        assert(less(entries[p].0@, entries[i].0@));
    } else if i < p {
        assert(less(entries[i].0@, entries[p].0@));
    }
}

/// Entries that agree with a map, entry by entry, are that map.
proof fn lemma_contents<V>(entries: Seq<(String, V)>, m: Map<Seq<char>, V>)
    requires
        ascending(entries),
        forall|i: int|
            0 <= i < entries.len() ==> m.dom().contains(#[trigger] entries[i].0@)
                && m[entries[i].0@] == entries[i].1,
        forall|k: Seq<char>| #[trigger] m.dom().contains(k) ==> has_key(entries, k),
    ensures
        contents(entries) == m,
{
    assert forall|k: Seq<char>| contents(entries).dom().contains(k) implies contents(entries)[k]
        == m[k] by {
        let p = position(entries, k);
        assert(entries[p].0@ == k);
    }
    assert(contents(entries).dom() =~= m.dom()) by {
        assert forall|k: Seq<char>| contents(entries).dom().contains(k) implies m.dom().contains(
            k,
        ) by {
            let p = position(entries, k);
            assert(entries[p].0@ == k);
        }
    }
    assert(contents(entries) =~= m);
}

impl<V> Table<V> {
    /// The keys ascend strictly.
    pub open spec fn wf(&self) -> bool {
        ascending(self.entries@)
    }

    pub fn new() -> (r: Table<V>)
        ensures
            r.wf(),
            r@ == Map::<Seq<char>, V>::empty(),
            r.entries@.len() == 0,
    {
        let r = Table { entries: Vec::new() };
        proof {
            lemma_contents(r.entries@, Map::<Seq<char>, V>::empty());
        }
        r
    }

    /// How many keys come before `key`, and whether `key` itself is there.
    fn search(&self, key: &str) -> (r: (usize, bool))
        requires
            self.wf(),
        ensures
            r.0 <= self.entries@.len(),
            forall|i: int| 0 <= i < r.0 ==> less(#[trigger] self.entries@[i].0@, key@),
            r.1 ==> r.0 < self.entries@.len() && self.entries@[r.0 as int].0@ == key@,
            !r.1 ==> forall|i: int|
                r.0 <= i < self.entries@.len() ==> less(key@, #[trigger] self.entries@[i].0@),
            r.1 == self@.dom().contains(key@),
    {
        let mut i: usize = 0;
        while i < self.entries.len()
            invariant
                self.wf(),
                i <= self.entries@.len(),
                forall|j: int| 0 <= j < i ==> less(#[trigger] self.entries@[j].0@, key@),
            decreases self.entries.len() - i,
        {
            let entry = &self.entries[i];
            if !text_less(entry.0.as_str(), key) {
                proof {
                    lemma_less_is_a_strict_total_order(entry.0@, key@, key@);
                }
                if text_less(key, entry.0.as_str()) {
                    proof {
                        assert forall|j: int| i <= j < self.entries@.len() implies less(
                            key@,
                            #[trigger] self.entries@[j].0@,
                        ) by {
                            lemma_less_is_a_strict_total_order(key@, entry.0@, self.entries@[j].0@);
                        }
                        self.lemma_absent(key@, i as int);
                    }
                    return (i, false);
                } else {
                    proof {
                        lemma_position(self.entries@, i as int);
                    }
                    return (i, true);
                }
            }
            i += 1;
        }
        proof {
            self.lemma_absent(key@, i as int);
        }
        (i, false)
    }

    proof fn lemma_absent(&self, key: Seq<char>, at: int)
        requires
            self.wf(),
            0 <= at <= self.entries@.len(),
            forall|j: int| 0 <= j < at ==> less(#[trigger] self.entries@[j].0@, key),
            forall|j: int|
                at <= j < self.entries@.len() ==> less(key, #[trigger] self.entries@[j].0@),
        ensures
            !self@.dom().contains(key),
    {
        lemma_less_is_a_strict_total_order(key, key, key);
        if has_key(self.entries@, key) {
            let p = position(self.entries@, key);
            assert(self.entries@[p].0@ == key);
        }
    }

    /// The value of `key`.
    pub fn get(&self, key: &str) -> (r: Option<&V>)
        requires
            self.wf(),
        ensures
            r is Some <==> self@.dom().contains(key@),
            r matches Some(v) ==> *v == self@[key@],
    {
        let (i, found) = self.search(key);
        if found {
            proof {
                lemma_position(self.entries@, i as int);
            }
            Some(&self.entries[i].1)
        } else {
            None
        }
    }

    /// Sets the value of `key`.
    pub fn insert(&mut self, key: String, value: V)
        requires
            old(self).wf(),
        ensures
            final(self).wf(),
            final(self)@ == old(self)@.insert(key@, value),
    {
        let (i, found) = self.search(key.as_str());
        let ghost before = self.entries@;
        let ghost k = key@;
        let ghost m = self@.insert(key@, value);
        if found {
            proof {
                lemma_position(before, i as int);
            }
            self.entries.set(i, (key, value));
        } else {
            self.entries.insert(i, (key, value));
        }
        proof {
            let after = self.entries@;
            lemma_less_is_a_strict_total_order(k, k, k);
            if found {
                assert(after =~= before.update(i as int, after[i as int]));
                assert(ascending(after)) by {
                    assert forall|a: int, b: int| 0 <= a < b < after.len() implies less(
                        #[trigger] after[a].0@,
                        #[trigger] after[b].0@,
                    ) by {
                        assert(less(before[a].0@, before[b].0@));
                    }
                }
                assert forall|q: Seq<char>| #[trigger] m.dom().contains(q) implies has_key(
                    after,
                    q,
                ) by {
                    if q == k {
                        assert(after[i as int].0@ == q);
                    } else {
                        let p = position(before, q);
                        assert(before[p].0@ == q);
                        assert(after[p].0@ == q);
                    }
                }
                assert forall|j: int| 0 <= j < after.len() implies m.dom().contains(
                    #[trigger] after[j].0@,
                ) && m[after[j].0@] == after[j].1 by {
                    lemma_position(before, j);
                    lemma_position(after, j);
                    lemma_position(after, i as int);
                }
            } else {
                assert(after =~= before.insert(i as int, after[i as int]));
                assert(ascending(after)) by {
                    assert forall|a: int, b: int| 0 <= a < b < after.len() implies less(
                        #[trigger] after[a].0@,
                        #[trigger] after[b].0@,
                    ) by {
                        let a0 = if a < i { a } else { a - 1 };
                        let b0 = if b < i { b } else { b - 1 };
                        if a == i {
                            assert(after[b] == before[b0]);
                        } else if b == i {
                            assert(after[a] == before[a0]);
                        } else {
                            assert(after[a] == before[a0] && after[b] == before[b0]);
                            assert(less(before[a0].0@, before[b0].0@));
                        }
                    }
                }
                assert forall|q: Seq<char>| #[trigger] m.dom().contains(q) implies has_key(
                    after,
                    q,
                ) by {
                    if q == k {
                        assert(after[i as int].0@ == q);
                    } else {
                        let p = position(before, q);
                        assert(before[p].0@ == q);
                        let p1 = if p < i { p } else { p + 1 };
                        assert(after[p1].0@ == q);
                    }
                }
                assert forall|j: int| 0 <= j < after.len() implies m.dom().contains(
                    #[trigger] after[j].0@,
                ) && m[after[j].0@] == after[j].1 by {
                    if j != i {
                        let j0 = if j < i { j } else { j - 1 };
                        assert(after[j] == before[j0]);
                        lemma_position(before, j0);
                    }
                    lemma_position(after, j);
                    lemma_position(after, i as int);
                }
            }
            lemma_contents(after, m);
        }
    }

    /// Removes `key`, where it is there.
    pub fn remove(&mut self, key: &str)
        requires
            old(self).wf(),
        ensures
            final(self).wf(),
            final(self)@ == old(self)@.remove(key@),
    {
        let _value = self.take(key);
    }

    /// Removes `key` and returns its value, where it is there.
    pub fn take(&mut self, key: &str) -> (r: Option<V>)
        requires
            old(self).wf(),
        ensures
            final(self).wf(),
            final(self)@ == old(self)@.remove(key@),
            r is Some <==> old(self)@.dom().contains(key@),
            r matches Some(v) ==> v == old(self)@[key@],
    {
        let (i, found) = self.search(key);
        let ghost before = self.entries@;
        if found {
            let (_key, value) = self.entries.remove(i);
            proof {
                lemma_position(before, i as int);
                lemma_removed(before, i as int);
                assert(self.entries@ =~= before.remove(i as int));
            }
            Some(value)
        } else {
            assert(self@.remove(key@) =~= self@);
            None
        }
    }

    /// The position of the first key after `start`, or of the first key of all.
    pub fn first_after(&self, start: Option<&str>) -> (r: usize)
        requires
            self.wf(),
        ensures
            is_first_after(self.entries@, opt_view(start), r as int),
    {
        match start {
            None => 0,
            Some(key) => {
                let (i, found) = self.search(key);
                proof {
                    lemma_less_is_a_strict_total_order(key@, key@, key@);
                    assert forall|j: int| 0 <= j < i implies !less(
                        key@,
                        #[trigger] self.entries@[j].0@,
                    ) by {
                        lemma_less_is_a_strict_total_order(key@, self.entries@[j].0@, key@);
                    }
                    if found {
                        assert forall|j: int| i < j < self.entries@.len() implies less(
                            key@,
                            #[trigger] self.entries@[j].0@,
                        ) by {
                            assert(less(self.entries@[i as int].0@, self.entries@[j].0@));
                        }
                    }
                }
                if found {
                    assert(i < self.entries.len());
                    i + 1
                } else {
                    i
                }
            },
        }
    }
}

pub open spec fn opt_view(start: Option<&str>) -> Option<Seq<char>> {
    match start {
        Some(s) => Some(s@),
        None => None,
    }
}

/// Whether the entries after `start` are those from position `at` on.
pub open spec fn is_first_after<V>(
    entries: Seq<(String, V)>,
    start: Option<Seq<char>>,
    at: int,
) -> bool {
    &&& 0 <= at <= entries.len()
    &&& start is None ==> at == 0
    &&& start matches Some(k) ==> (forall|j: int|
        0 <= j < entries.len() ==> (less(k, #[trigger] entries[j].0@) <==> at <= j))
}

/// Ascending entries have a position after every key.
pub proof fn lemma_first_after_exists<V>(entries: Seq<(String, V)>, start: Option<Seq<char>>)
    requires
        ascending(entries),
    ensures
        exists|at: int| #[trigger] is_first_after(entries, start, at),
{
    match start {
        None => {
            assert(is_first_after(entries, start, 0));
        },
        Some(k) => {
            let at = find_first_after(entries, k, 0);
            assert(is_first_after(entries, start, at));
        },
    }
}

proof fn find_first_after<V>(entries: Seq<(String, V)>, k: Seq<char>, i: int) -> (at: int)
    requires
        ascending(entries),
        0 <= i <= entries.len(),
        forall|j: int| 0 <= j < i ==> !less(k, #[trigger] entries[j].0@),
    ensures
        is_first_after(entries, Some(k), at),
    decreases entries.len() - i,
{
    if i == entries.len() {
        i
    } else if less(k, entries[i].0@) {
        assert forall|j: int| i <= j < entries.len() implies less(k, #[trigger] entries[j].0@) by {
            if i < j {
                assert(less(entries[i].0@, entries[j].0@));
                lemma_less_is_a_strict_total_order(k, entries[i].0@, entries[j].0@);
            }
        }
        i
    } else {
        find_first_after(entries, k, i + 1)
    }
}

/// Taking one entry out of ascending entries takes its key out of the map.
pub proof fn lemma_removed<V>(entries: Seq<(String, V)>, i: int)
    requires
        ascending(entries),
        0 <= i < entries.len(),
    ensures
        ascending(entries.remove(i)),
        contents(entries.remove(i)) == contents(entries).remove(entries[i].0@),
{
    let after = entries.remove(i);
    let k = entries[i].0@;
    let m = contents(entries).remove(k);
    assert(ascending(after)) by {
        assert forall|a: int, b: int| 0 <= a < b < after.len() implies less(
            #[trigger] after[a].0@,
            #[trigger] after[b].0@,
        ) by {
            let a0 = if a < i { a } else { a + 1 };
            let b0 = if b < i { b } else { b + 1 };
            assert(after[a] == entries[a0] && after[b] == entries[b0]);
            assert(less(entries[a0].0@, entries[b0].0@));
        }
    }
    assert forall|q: Seq<char>| #[trigger] m.dom().contains(q) implies has_key(after, q) by {
        let p = position(entries, q);
        assert(entries[p].0@ == q);
        let p1 = if p < i { p } else { p - 1 };
        assert(after[p1].0@ == q);
    }
    assert forall|j: int| 0 <= j < after.len() implies m.dom().contains(#[trigger] after[j].0@)
        && m[after[j].0@] == after[j].1 by {
        let j0 = if j < i { j } else { j + 1 };
        assert(after[j] == entries[j0]);
        lemma_position(entries, j0);
        lemma_position(entries, i);
        lemma_position(after, j);
    }
    lemma_contents(after, m);
}

} // verus!
