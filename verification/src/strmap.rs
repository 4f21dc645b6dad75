//! Maps keyed by strings, kept in ascending key order.
//!
//! Entries are ordered by the code points of their keys, which is the order
//! of `String`'s `Ord` (UTF-8 byte order and code point order agree), so
//! iterating a map visits its keys exactly as an ordered map of strings does.

use vstd::prelude::*;

verus! {

/// Lexicographic order of character sequences by code point.
pub open spec fn seq_less(a: Seq<char>, b: Seq<char>) -> bool
    decreases a.len(),
{
    if a.len() == 0 {
        b.len() > 0
    } else if b.len() == 0 {
        false
    } else if a[0] != b[0] {
        a[0] < b[0]
    } else {
        seq_less(a.drop_first(), b.drop_first())
    }
}

pub proof fn lemma_less_irreflexive(a: Seq<char>)
    ensures
        !seq_less(a, a),
    decreases a.len(),
{
    if a.len() > 0 {
        lemma_less_irreflexive(a.drop_first());
    }
}

pub proof fn lemma_less_transitive(a: Seq<char>, b: Seq<char>, c: Seq<char>)
    requires
        seq_less(a, b),
        seq_less(b, c),
    ensures
        seq_less(a, c),
    decreases a.len(),
{
    if a.len() > 0 && b.len() > 0 && c.len() > 0 {
        if a[0] == b[0] && b[0] == c[0] {
            lemma_less_transitive(a.drop_first(), b.drop_first(), c.drop_first());
        }
    }
}

pub proof fn lemma_less_total(a: Seq<char>, b: Seq<char>)
    ensures
        seq_less(a, b) || seq_less(b, a) || a == b,
    decreases a.len(),
{
    if a.len() > 0 && b.len() > 0 {
        if a[0] == b[0] {
            lemma_less_total(a.drop_first(), b.drop_first());
            if a.drop_first() == b.drop_first() {
                assert(a =~= seq![a[0]] + a.drop_first());
                assert(b =~= seq![b[0]] + b.drop_first());
            }
        } else {
        }
    } else if a.len() == 0 && b.len() == 0 {
        assert(a =~= b);
    }
}

pub proof fn lemma_less_asymmetric(a: Seq<char>, b: Seq<char>)
    requires
        seq_less(a, b),
    ensures
        !seq_less(b, a),
        a != b,
{
    if seq_less(b, a) {
        lemma_less_transitive(a, b, a);
        lemma_less_irreflexive(a);
    }
    if a == b {
        lemma_less_irreflexive(a);
    }
}

/// Three-way comparison result.
#[derive(Debug, Clone, Copy, PartialEq, Eq, Structural)]
pub enum Rel {
    Less,
    Equal,
    Greater,
}

/// Compare two strings by code point.
pub fn compare_str(a: &str, b: &str) -> (r: Rel)
    ensures
        r == Rel::Less <==> seq_less(a@, b@),
        r == Rel::Equal <==> a@ == b@,
        r == Rel::Greater <==> seq_less(b@, a@),
{
    let x = crate::text::chars_of(a);
    let y = crate::text::chars_of(b);
    let mut i: usize = 0;
    while i < x.len() && i < y.len() && x[i] == y[i]
        invariant
            x@ == a@,
            y@ == b@,
            i <= x.len(),
            i <= y.len(),
            x@.subrange(0, i as int) == y@.subrange(0, i as int),
        decreases x.len() - i,
    {
        assert(x@.subrange(0, i + 1) =~= x@.subrange(0, i as int).push(x@[i as int]));
        assert(y@.subrange(0, i + 1) =~= y@.subrange(0, i as int).push(y@[i as int]));
        i = i + 1;
    }
    proof {
        lemma_less_suffix(a@, b@, i as int);
        lemma_less_total(a@, b@);
    }
    if i == x.len() && i == y.len() {
        proof {
            assert(a@ =~= x@.subrange(0, i as int));
            assert(b@ =~= y@.subrange(0, i as int));
            lemma_less_irreflexive(a@);
        }
        Rel::Equal
    } else if i == x.len() {
        proof {
            lemma_less_asymmetric(a@, b@);
        }
        Rel::Less
    } else if i == y.len() {
        proof {
            lemma_less_asymmetric(b@, a@);
        }
        Rel::Greater
    } else if x[i] < y[i] {
        proof {
            lemma_less_asymmetric(a@, b@);
        }
        Rel::Less
    } else {
        proof {
            lemma_less_asymmetric(b@, a@);
        }
        Rel::Greater
    }
}

/// Sequences agreeing on their first `i` characters compare as their
/// remainders do.
proof fn lemma_less_suffix(a: Seq<char>, b: Seq<char>, i: int)
    requires
        0 <= i <= a.len(),
        i <= b.len(),
        a.subrange(0, i) == b.subrange(0, i),
    ensures
        seq_less(a, b) == seq_less(a.subrange(i, a.len() as int), b.subrange(i, b.len() as int)),
    decreases i,
{
    if i > 0 {
        assert(a[0] == a.subrange(0, i)[0]);
        assert(b[0] == b.subrange(0, i)[0]);
        assert(a.drop_first().subrange(0, i - 1) =~= a.subrange(0, i).drop_first());
        assert(b.drop_first().subrange(0, i - 1) =~= b.subrange(0, i).drop_first());
        lemma_less_suffix(a.drop_first(), b.drop_first(), i - 1);
        assert(a.drop_first().subrange(i - 1, a.len() - 1) =~= a.subrange(i, a.len() as int));
        assert(b.drop_first().subrange(i - 1, b.len() - 1) =~= b.subrange(i, b.len() as int));
    } else {
        assert(a.subrange(0, a.len() as int) =~= a);
        assert(b.subrange(0, b.len() as int) =~= b);
    }
}

/// Keys strictly ascend.
pub open spec fn ascending<V>(s: Seq<(Seq<char>, V)>) -> bool {
    forall|i: int, j: int| 0 <= i < j < s.len() ==> seq_less(#[trigger] s[i].0, #[trigger] s[j].0)
}

/// The value stored under `key` (the first entry with that key).
pub open spec fn find<V>(s: Seq<(Seq<char>, V)>, key: Seq<char>) -> Option<V>
    decreases s.len(),
{
    if s.len() == 0 {
        None
    } else if s[0].0 == key {
        Some(s[0].1)
    } else {
        find(s.drop_first(), key)
    }
}

pub proof fn lemma_find_first<V>(s: Seq<(Seq<char>, V)>, key: Seq<char>, i: int)
    requires
        0 <= i < s.len(),
        s[i].0 == key,
        forall|j: int| 0 <= j < i ==> s[j].0 != key,
    ensures
        find(s, key) == Some(s[i].1),
    decreases i,
{
    if i > 0 {
        assert forall|j: int| 0 <= j < i - 1 implies s.drop_first()[j].0 != key by {
            assert(s.drop_first()[j] == s[j + 1]);
        }
        lemma_find_first(s.drop_first(), key, i - 1);
    }
}

pub proof fn lemma_find_none<V>(s: Seq<(Seq<char>, V)>, key: Seq<char>)
    requires
        forall|j: int| 0 <= j < s.len() ==> s[j].0 != key,
    ensures
        find(s, key) is None,
    decreases s.len(),
{
    if s.len() > 0 {
        assert forall|j: int| 0 <= j < s.len() - 1 implies s.drop_first()[j].0 != key by {
            assert(s.drop_first()[j] == s[j + 1]);
        }
        lemma_find_none(s.drop_first(), key);
    }
}

pub proof fn lemma_find_present<V>(s: Seq<(Seq<char>, V)>, key: Seq<char>, i: int)
    requires
        0 <= i < s.len(),
        s[i].0 == key,
    ensures
        find(s, key) is Some,
    decreases i,
{
    if i > 0 && s[0].0 != key {
        assert(s.drop_first()[i - 1] == s[i]);
        lemma_find_present(s.drop_first(), key, i - 1);
    }
}

pub proof fn lemma_find_some<V>(s: Seq<(Seq<char>, V)>, key: Seq<char>)
    requires
        find(s, key) is Some,
    ensures
        exists|j: int| 0 <= j < s.len() && s[j].0 == key && find(s, key) == Some(s[j].1),
    decreases s.len(),
{
    if s[0].0 != key {
        lemma_find_some(s.drop_first(), key);
        let j = choose|j: int|
            0 <= j < s.drop_first().len() && s.drop_first()[j].0 == key && find(s.drop_first(), key)
                == Some(s.drop_first()[j].1);
        assert(s[j + 1] == s.drop_first()[j]);
    }
}

pub proof fn lemma_find_at<V>(s: Seq<(Seq<char>, V)>, i: int)
    requires
        ascending(s),
        0 <= i < s.len(),
    ensures
        find(s, s[i].0) == Some(s[i].1),
{
    assert forall|j: int| 0 <= j < i implies s[j].0 != s[i].0 by {
        assert(seq_less(s[j].0, s[i].0));
        lemma_less_irreflexive(s[i].0);
    }
    lemma_find_first(s, s[i].0, i);
}

/// A string-keyed map in ascending key order.
#[derive(Debug)]
pub struct StrMap<V> {
    entries: Vec<(String, V)>,
}

pub open spec fn entries_view<V>(e: Seq<(String, V)>) -> Seq<(Seq<char>, V)> {
    e.map_values(|p: (String, V)| (p.0@, p.1))
}

impl<V> View for StrMap<V> {
    type V = Seq<(Seq<char>, V)>;

    closed spec fn view(&self) -> Seq<(Seq<char>, V)> {
        entries_view(self.entries@)
    }
}

impl<V> StrMap<V> {
    /// Every map keeps its keys strictly ascending.
    #[verifier::type_invariant]
    closed spec fn inv(self) -> bool {
        ascending(entries_view(self.entries@))
    }

    pub fn new() -> (m: Self)
        ensures
            m@.len() == 0,
    {
        let m = StrMap { entries: Vec::new() };
        assert(entries_view(m.entries@) =~= Seq::<(Seq<char>, V)>::empty());
        m
    }

    /// The number of entries; also states that the keys ascend.
    pub fn len(&self) -> (n: usize)
        ensures
            n == self@.len(),
            ascending(self@),
    {
        proof {
            use_type_invariant(self);
        }
        self.entries.len()
    }

    /// The `i`-th entry in key order.
    pub fn entry(&self, i: usize) -> (e: (&String, &V))
        requires
            i < self@.len(),
        ensures
            e.0@ == self@[i as int].0,
            *e.1 == self@[i as int].1,
    {
        let e = &self.entries[i];
        (&e.0, &e.1)
    }

    /// Position of `key`, or the position where it would be inserted.
    fn search(&self, key: &str) -> (r: (usize, bool))
        ensures
            r.0 <= self@.len(),
            r.1 ==> r.0 < self@.len() && self@[r.0 as int].0 == key@,
            !r.1 ==> forall|j: int| 0 <= j < self@.len() ==> self@[j].0 != key@,
            forall|j: int| 0 <= j < r.0 ==> seq_less(self@[j].0, key@),
            !r.1 ==> forall|j: int| r.0 <= j < self@.len() ==> seq_less(key@, self@[j].0),
    {
        proof {
            use_type_invariant(self);
        }
        let ghost s = self@;
        let mut i: usize = 0;
        while i < self.entries.len()
            invariant
                s == self@,
                ascending(s),
                s.len() == self.entries.len(),
                i <= s.len(),
                forall|j: int| 0 <= j < i ==> seq_less(s[j].0, key@),
            decreases self.entries.len() - i,
        {
            assert(s[i as int].0 == self.entries@[i as int].0@);
            match compare_str(self.entries[i].0.as_str(), key) {
                Rel::Less => {},
                Rel::Equal => {
                    return (i, true);
                },
                Rel::Greater => {
                    proof {
                        assert forall|j: int| 0 <= j < s.len() implies s[j].0 != key@ by {
                            if j < i {
                                lemma_less_asymmetric(s[j].0, key@);
                            } else if j > i {
                                lemma_less_transitive(key@, s[i as int].0, s[j].0);
                                lemma_less_asymmetric(key@, s[j].0);
                            } else {
                                lemma_less_asymmetric(key@, s[j].0);
                            }
                        }
                        assert forall|j: int| i <= j < s.len() implies seq_less(key@, s[j].0) by {
                            if j > i {
                                lemma_less_transitive(key@, s[i as int].0, s[j].0);
                            }
                        }
                    }
                    return (i, false);
                },
            }
            i = i + 1;
        }
        proof {
            assert forall|j: int| 0 <= j < s.len() implies s[j].0 != key@ by {
                lemma_less_asymmetric(s[j].0, key@);
            }
        }
        (i, false)
    }

    pub fn get(&self, key: &str) -> (r: Option<&V>)
        ensures
            r is Some <==> find(self@, key@) is Some,
            r matches Some(v) ==> find(self@, key@) == Some(*v),
    {
        proof {
            use_type_invariant(self);
        }
        let (i, found) = self.search(key);
        if found {
            proof {
                lemma_find_at(self@, i as int);
            }
            Some(&self.entries[i].1)
        } else {
            proof {
                lemma_find_none(self@, key@);
            }
            None
        }
    }

    pub fn contains_key(&self, key: &str) -> (b: bool)
        ensures
            b == find(self@, key@) is Some,
    {
        self.get(key).is_some()
    }

    /// Insert or replace the value stored under `key`.
    pub fn insert(&mut self, key: String, value: V)
        ensures
            forall|k: Seq<char>|
                #![trigger find(final(self)@, k)]
                find(final(self)@, k) == if k == key@ {
                    Some(value)
                } else {
                    find(old(self)@, k)
                },
            forall|k: Seq<char>|
                #![trigger find(final(self)@, k)]
                find(final(self)@, k) is Some <==> (k == key@ || find(old(self)@, k) is Some),
    {
        proof {
            use_type_invariant(&*self);
        }
        let (i, found) = self.search(key.as_str());
        let ghost old_s = self@;
        let ghost kv = key@;
        if found {
            let ghost new_s = old_s.update(i as int, (kv, value));
            proof {
                assert forall|a: int, b: int| 0 <= a < b < new_s.len() implies seq_less(
                    #[trigger] new_s[a].0,
                    #[trigger] new_s[b].0,
                ) by {
                    assert(new_s[a].0 == old_s[a].0);
                    assert(new_s[b].0 == old_s[b].0);
                }
                assert(entries_view(self.entries@.update(i as int, (key, value))) =~= new_s);
            }
            let mut entries: Vec<(String, V)> = Vec::new();
            std::mem::swap(&mut entries, &mut self.entries);
            entries.set(i, (key, value));
            self.entries = entries;
            proof {
                assert(self@ == new_s);
                lemma_find_update(old_s, i as int, value);
            }
        } else {
            let ghost new_s = old_s.insert(i as int, (kv, value));
            proof {
                assert forall|a: int, b: int| 0 <= a < b < new_s.len() implies seq_less(
                    #[trigger] new_s[a].0,
                    #[trigger] new_s[b].0,
                ) by {
                    if b < i {
                    } else if b == i {
                    } else if a < i {
                        assert(new_s[b] == old_s[b - 1]);
                        lemma_less_transitive(new_s[a].0, kv, new_s[b].0);
                    } else if a == i {
                        assert(new_s[b] == old_s[b - 1]);
                    } else {
                        assert(new_s[a] == old_s[a - 1]);
                        assert(new_s[b] == old_s[b - 1]);
                    }
                }
                assert(entries_view(self.entries@.insert(i as int, (key, value))) =~= new_s);
            }
            let mut entries: Vec<(String, V)> = Vec::new();
            std::mem::swap(&mut entries, &mut self.entries);
            entries.insert(i, (key, value));
            self.entries = entries;
            proof {
                assert(self@ == new_s);
                lemma_find_insert(old_s, i as int, kv, value);
            }
        }
    }

    /// Remove the entry stored under `key`, returning its value.
    pub fn remove(&mut self, key: &str) -> (r: Option<V>)
        ensures
            r == find(old(self)@, key@),
            forall|k: Seq<char>|
                #![trigger find(final(self)@, k)]
                find(final(self)@, k) == if k == key@ {
                    None
                } else {
                    find(old(self)@, k)
                },
    {
        proof {
            use_type_invariant(&*self);
        }
        let (i, found) = self.search(key);
        if !found {
            proof {
                lemma_find_none(self@, key@);
                assert forall|k: Seq<char>| #![trigger find(self@, k)] find(self@, k) == if k == key@ {
                    None::<V>
                } else {
                    find(self@, k)
                } by {}
            }
            return None;
        }
        let ghost old_s = self@;
        let ghost new_s = old_s.remove(i as int);
        proof {
            assert forall|a: int, b: int| 0 <= a < b < new_s.len() implies seq_less(
                #[trigger] new_s[a].0,
                #[trigger] new_s[b].0,
            ) by {
                if b < i {
                } else if a < i {
                    assert(new_s[b] == old_s[b + 1]);
                } else {
                    assert(new_s[a] == old_s[a + 1]);
                    assert(new_s[b] == old_s[b + 1]);
                }
            }
            assert(entries_view(self.entries@.remove(i as int)) =~= new_s);
            lemma_find_at(old_s, i as int);
        }
        let mut entries: Vec<(String, V)> = Vec::new();
        std::mem::swap(&mut entries, &mut self.entries);
        let (_, v) = entries.remove(i);
        self.entries = entries;
        proof {
            assert(self@ == new_s);
            lemma_find_remove(old_s, i as int);
        }
        Some(v)
    }
}

impl<V> StrMap<V> {
    /// The entries, in ascending key order.
    pub fn into_entries(self) -> (v: Vec<(String, V)>)
        ensures
            entries_view(v@) == self@,
            ascending(self@),
    {
        proof {
            use_type_invariant(&self);
        }
        self.entries
    }
}

proof fn lemma_entries_view_push<V>(e: Seq<(String, V)>, x: (String, V))
    ensures
        entries_view(e.push(x)) == entries_view(e).push((x.0@, x.1)),
{
    assert(entries_view(e.push(x)) =~= entries_view(e).push((x.0@, x.1)));
}

pub proof fn lemma_entries_view_index<V>(e: Seq<(String, V)>, i: int)
    requires
        0 <= i < e.len(),
    ensures
        entries_view(e)[i] == (e[i].0@, e[i].1),
        entries_view(e).len() == e.len(),
        entries_view(e).subrange(0, i + 1) == entries_view(e).subrange(0, i).push((e[i].0@, e[i].1)),
{
    assert(entries_view(e).subrange(0, i + 1) =~= entries_view(e).subrange(0, i).push((e[i].0@, e[i].1)));
}

impl StrMap<String> {
    /// A copy holding the same entries.
    pub fn duplicate(&self) -> (r: Self)
        ensures
            r@ == self@,
    {
        proof {
            use_type_invariant(self);
        }
        let mut entries: Vec<(String, String)> = Vec::new();
        let mut i: usize = 0;
        while i < self.entries.len()
            invariant
                i <= self.entries.len(),
                entries_view(entries@) == entries_view(self.entries@).subrange(0, i as int),
            decreases self.entries.len() - i,
        {
            let k = self.entries[i].0.clone();
            let v = self.entries[i].1.clone();
            let ghost prev = entries@;
            entries.push((k, v));
            proof {
                lemma_entries_view_push(prev, (k, v));
                lemma_entries_view_index(self.entries@, i as int);
            }
            i = i + 1;
            assert(entries_view(entries@) =~= entries_view(self.entries@).subrange(0, i as int));
        }
        assert(entries_view(self.entries@).subrange(0, i as int) =~= entries_view(self.entries@));
        StrMap { entries }
    }
}

impl StrMap<bool> {
    /// A copy holding the same entries.
    pub fn duplicate(&self) -> (r: Self)
        ensures
            r@ == self@,
    {
        proof {
            use_type_invariant(self);
        }
        let mut entries: Vec<(String, bool)> = Vec::new();
        let mut i: usize = 0;
        while i < self.entries.len()
            invariant
                i <= self.entries.len(),
                entries_view(entries@) == entries_view(self.entries@).subrange(0, i as int),
            decreases self.entries.len() - i,
        {
            let k = self.entries[i].0.clone();
            let ghost prev = entries@;
            entries.push((k, self.entries[i].1));
            proof {
                lemma_entries_view_push(prev, (k, self.entries@[i as int].1));
                lemma_entries_view_index(self.entries@, i as int);
            }
            i = i + 1;
            assert(entries_view(entries@) =~= entries_view(self.entries@).subrange(0, i as int));
        }
        assert(entries_view(self.entries@).subrange(0, i as int) =~= entries_view(self.entries@));
        StrMap { entries }
    }
}

proof fn lemma_find_update<V>(s: Seq<(Seq<char>, V)>, i: int, v: V)
    requires
        ascending(s),
        0 <= i < s.len(),
    ensures
        forall|k: Seq<char>|
            #![trigger find(s.update(i, (s[i].0, v)), k)]
            find(s.update(i, (s[i].0, v)), k) == if k == s[i].0 {
                Some(v)
            } else {
                find(s, k)
            },
{
    let t = s.update(i, (s[i].0, v));
    assert(ascending(t)) by {
        assert forall|a: int, b: int| 0 <= a < b < t.len() implies seq_less(
            #[trigger] t[a].0,
            #[trigger] t[b].0,
        ) by {
            assert(t[a].0 == s[a].0);
            assert(t[b].0 == s[b].0);
        }
    }
    assert forall|k: Seq<char>| #![trigger find(t, k)] find(t, k) == if k == s[i].0 {
        Some(v)
    } else {
        find(s, k)
    } by {
        if k == s[i].0 {
            lemma_find_at(t, i);
        } else if find(s, k) is Some {
            lemma_find_some(s, k);
            let j = choose|j: int| 0 <= j < s.len() && s[j].0 == k && find(s, k) == Some(s[j].1);
            lemma_find_at(s, j);
            lemma_find_at(t, j);
        } else {
            assert forall|j: int| 0 <= j < s.len() implies s[j].0 != k by {
                if s[j].0 == k {
                    lemma_find_present(s, k, j);
                }
            }
            assert forall|j: int| 0 <= j < t.len() implies t[j].0 != k by {
                assert(t[j].0 == s[j].0);
            }
            lemma_find_none(t, k);
        }
    }
}

proof fn lemma_find_insert<V>(s: Seq<(Seq<char>, V)>, i: int, key: Seq<char>, v: V)
    requires
        ascending(s),
        ascending(s.insert(i, (key, v))),
        0 <= i <= s.len(),
        forall|j: int| 0 <= j < s.len() ==> s[j].0 != key,
    ensures
        forall|k: Seq<char>|
            #![trigger find(s.insert(i, (key, v)), k)]
            find(s.insert(i, (key, v)), k) == if k == key {
                Some(v)
            } else {
                find(s, k)
            },
{
    let t = s.insert(i, (key, v));
    assert forall|k: Seq<char>| #![trigger find(t, k)] find(t, k) == if k == key {
        Some(v)
    } else {
        find(s, k)
    } by {
        if k == key {
            lemma_find_at(t, i);
        } else if find(s, k) is Some {
            lemma_find_some(s, k);
            let j = choose|j: int| 0 <= j < s.len() && s[j].0 == k && find(s, k) == Some(s[j].1);
            lemma_find_at(s, j);
            if j < i {
                lemma_find_at(t, j);
            } else {
                assert(t[j + 1] == s[j]);
                lemma_find_at(t, j + 1);
            }
        } else {
            assert forall|j: int| 0 <= j < s.len() implies s[j].0 != k by {
                if s[j].0 == k {
                    lemma_find_present(s, k, j);
                }
            }
            assert forall|j: int| 0 <= j < t.len() implies t[j].0 != k by {
                if j < i {
                    assert(t[j] == s[j]);
                } else if j > i {
                    assert(t[j] == s[j - 1]);
                }
            }
            lemma_find_none(t, k);
        }
    }
}

proof fn lemma_find_remove<V>(s: Seq<(Seq<char>, V)>, i: int)
    requires
        ascending(s),
        ascending(s.remove(i)),
        0 <= i < s.len(),
    ensures
        forall|k: Seq<char>|
            #![trigger find(s.remove(i), k)]
            find(s.remove(i), k) == if k == s[i].0 {
                None
            } else {
                find(s, k)
            },
{
    let t = s.remove(i);
    assert forall|k: Seq<char>| #![trigger find(t, k)] find(t, k) == if k == s[i].0 {
        None
    } else {
        find(s, k)
    } by {
        if k == s[i].0 {
            assert forall|j: int| 0 <= j < t.len() implies t[j].0 != k by {
                if j < i {
                    assert(t[j] == s[j]);
                    assert(seq_less(s[j].0, s[i].0));
                    lemma_less_irreflexive(k);
                } else {
                    assert(t[j] == s[j + 1]);
                    assert(seq_less(s[i].0, s[j + 1].0));
                    lemma_less_irreflexive(k);
                }
            }
            lemma_find_none(t, k);
        } else if find(s, k) is Some {
            lemma_find_some(s, k);
            let j = choose|j: int| 0 <= j < s.len() && s[j].0 == k && find(s, k) == Some(s[j].1);
            lemma_find_at(s, j);
            if j < i {
                assert(t[j] == s[j]);
                lemma_find_at(t, j);
            } else {
                assert(j != i);
                assert(t[j - 1] == s[j]);
                lemma_find_at(t, j - 1);
            }
        } else {
            assert forall|j: int| 0 <= j < s.len() implies s[j].0 != k by {
                if s[j].0 == k {
                    lemma_find_present(s, k, j);
                }
            }
            assert forall|j: int| 0 <= j < t.len() implies t[j].0 != k by {
                if j < i {
                    assert(t[j] == s[j]);
                } else {
                    assert(t[j] == s[j + 1]);
                }
            }
            lemma_find_none(t, k);
        }
    }
}

} // verus!
