//! A map from text keys, kept in ascending key order (the order of `str`'s
//! `Ord`, which compares characters by code point).
use vstd::prelude::*;

verus! {

/// `a` comes strictly before `b` in code-point lexicographic order.
pub open spec fn lex_lt(a: Seq<char>, b: Seq<char>) -> bool
    decreases a.len(),
{
    if a.len() == 0 {
        b.len() > 0
    } else if b.len() == 0 {
        false
    } else if a[0] != b[0] {
        a[0] < b[0]
    } else {
        lex_lt(a.drop_first(), b.drop_first())
    }
}

/// No sequence comes before itself.
pub proof fn lemma_lex_irreflexive(a: Seq<char>)
    ensures
        !lex_lt(a, a),
    decreases a.len(),
{
    if a.len() > 0 {
        lemma_lex_irreflexive(a.drop_first());
    }
}

/// Lexicographic order is transitive.
pub proof fn lemma_lex_transitive(a: Seq<char>, b: Seq<char>, c: Seq<char>)
    requires
        lex_lt(a, b),
        lex_lt(b, c),
    ensures
        lex_lt(a, c),
    decreases a.len(),
{
    if a.len() > 0 && b.len() > 0 && c.len() > 0 && a[0] == b[0] && b[0] == c[0] {
        lemma_lex_transitive(a.drop_first(), b.drop_first(), c.drop_first());
    }
}

/// Any two different sequences are ordered one way or the other.
pub proof fn lemma_lex_total(a: Seq<char>, b: Seq<char>)
    ensures
        a == b || lex_lt(a, b) || lex_lt(b, a),
    decreases a.len(),
{
    if a.len() > 0 && b.len() > 0 {
        if a[0] == b[0] {
            lemma_lex_total(a.drop_first(), b.drop_first());
            if a.drop_first() == b.drop_first() {
                assert(a =~= seq![a[0]] + a.drop_first());
                assert(b =~= seq![b[0]] + b.drop_first());
            }
        }
    } else if a.len() == 0 && b.len() == 0 {
        assert(a =~= b);
    }
}

/// Result of comparing two keys.
pub enum KeyOrder {
    Less,
    Equal,
    Greater,
}

/// Compares two character sequences in code-point lexicographic order.
pub fn compare_chars(a: &[char], b: &[char]) -> (r: KeyOrder)
    ensures
        r is Less <==> lex_lt(a@, b@),
        r is Equal <==> a@ == b@,
        r is Greater <==> lex_lt(b@, a@),
{
    let mut i: usize = 0;
    assert(a@.skip(0) =~= a@);
    assert(b@.skip(0) =~= b@);
    while i < a.len() && i < b.len() && a[i] == b[i]
        invariant
            i <= a@.len(),
            i <= b@.len(),
            a@.take(i as int) == b@.take(i as int),
            lex_lt(a@, b@) == lex_lt(a@.skip(i as int), b@.skip(i as int)),
            lex_lt(b@, a@) == lex_lt(b@.skip(i as int), a@.skip(i as int)),
        decreases a@.len() - i,
    {
        assert(a@.skip(i as int).drop_first() =~= a@.skip(i + 1));
        assert(b@.skip(i as int).drop_first() =~= b@.skip(i + 1));
        assert(a@.take(i + 1) =~= a@.take(i as int).push(a@[i as int]));
        assert(b@.take(i + 1) =~= b@.take(i as int).push(b@[i as int]));
        i = i + 1;
    }
    let ghost sa = a@.skip(i as int);
    let ghost sb = b@.skip(i as int);
    proof {
        lemma_lex_irreflexive(a@);
    }
    if i == a.len() && i == b.len() {
        assert(a@ =~= a@.take(i as int));
        assert(b@ =~= b@.take(i as int));
        KeyOrder::Equal
    } else if i == a.len() {
        assert(sa.len() == 0 && sb.len() > 0);
        assert(a@.len() != b@.len());
        KeyOrder::Less
    } else if i == b.len() {
        assert(sb.len() == 0 && sa.len() > 0);
        assert(a@.len() != b@.len());
        KeyOrder::Greater
    } else {
        assert(sa[0] == a@[i as int] && sb[0] == b@[i as int]);
        assert(a@[i as int] != b@[i as int]);
        if a[i] < b[i] {
            KeyOrder::Less
        } else {
            KeyOrder::Greater
        }
    }
}

/// Whether `a` comes strictly before `b`.
pub fn lex_less(a: &[char], b: &[char]) -> (r: bool)
    ensures
        r == lex_lt(a@, b@),
{
    match compare_chars(a, b) {
        KeyOrder::Less => true,
        _ => false,
    }
}

/// The key/value pairs as plain values.
pub open spec fn pair_views<V>(s: Seq<(Vec<char>, V)>) -> Seq<(Seq<char>, V)> {
    s.map_values(|e: (Vec<char>, V)| (e.0@, e.1))
}

/// The keys of `p` ascend strictly.
pub open spec fn keys_ascending<V>(p: Seq<(Seq<char>, V)>) -> bool {
    forall|i: int, j: int| 0 <= i < j < p.len() ==> lex_lt(#[trigger] p[i].0, #[trigger] p[j].0)
}

/// The map that holds the pairs of `p` (a later pair wins over an earlier one
/// with the same key).
pub open spec fn map_of_pairs<V>(p: Seq<(Seq<char>, V)>) -> Map<Seq<char>, V>
    decreases p.len(),
{
    if p.len() == 0 {
        Map::empty()
    } else {
        map_of_pairs(p.drop_last()).insert(p.last().0, p.last().1)
    }
}

/// With ascending keys, the map holds exactly the pairs of `p`.
pub proof fn lemma_map_of_pairs<V>(p: Seq<(Seq<char>, V)>)
    requires
        keys_ascending(p),
    ensures
        forall|i: int|
            0 <= i < p.len() ==> map_of_pairs(p).contains_key(#[trigger] p[i].0) && map_of_pairs(
                p,
            )[p[i].0] == p[i].1,
        forall|k: Seq<char>|
            #[trigger] map_of_pairs(p).contains_key(k) ==> exists|i: int|
                0 <= i < p.len() && p[i].0 == k,
        map_of_pairs(p).dom().finite(),
        map_of_pairs(p).len() == p.len(),
    decreases p.len(),
{
    if p.len() > 0 {
        let q = p.drop_last();
        assert(keys_ascending(q)) by {
            assert forall|i: int, j: int| 0 <= i < j < q.len() implies lex_lt(
                #[trigger] q[i].0,
                #[trigger] q[j].0,
            ) by {
                assert(q[i] == p[i] && q[j] == p[j]);
            }
        }
        lemma_map_of_pairs(q);
        let last = p.last();
        assert(!map_of_pairs(q).contains_key(last.0)) by {
            if map_of_pairs(q).contains_key(last.0) {
                let i = choose|i: int| 0 <= i < q.len() && q[i].0 == last.0;
                assert(q[i] == p[i]);
                assert(lex_lt(p[i].0, p[p.len() - 1].0));
                lemma_lex_irreflexive(last.0);
            }
        }
        assert forall|i: int| 0 <= i < p.len() implies map_of_pairs(p).contains_key(
            #[trigger] p[i].0,
        ) && map_of_pairs(p)[p[i].0] == p[i].1 by {
            if i < p.len() - 1 {
                assert(q[i] == p[i]);
                assert(lex_lt(p[i].0, p[p.len() - 1].0));
                lemma_lex_irreflexive(last.0);
            }
        }
        assert forall|k: Seq<char>| #[trigger] map_of_pairs(p).contains_key(k) implies exists|
            i: int,
        | 0 <= i < p.len() && p[i].0 == k by {
            if k == last.0 {
                assert(p[p.len() - 1].0 == k);
            } else {
                let i = choose|i: int| 0 <= i < q.len() && q[i].0 == k;
                assert(q[i] == p[i]);
            }
        }
    }
}

/// A map from text keys whose entries are kept in ascending key order.
pub struct SortedMap<V> {
    entries: Vec<(Vec<char>, V)>,
}

impl<V> SortedMap<V> {
    /// The entries' keys ascend strictly (which every map built by this
    /// type's functions keeps).
    pub closed spec fn wf(self) -> bool {
        keys_ascending(pair_views(self.entries@))
    }

    /// The entries, by ascending key.
    pub closed spec fn sorted_pairs(self) -> Seq<(Seq<char>, V)> {
        pair_views(self.entries@)
    }

    /// The map's contents.
    pub open spec fn view(self) -> Map<Seq<char>, V> {
        map_of_pairs(self.sorted_pairs())
    }

    /// The entries ascend strictly by key and are exactly the map's contents.
    pub proof fn lemma_sorted_pairs(&self)
        requires
            self.wf(),
        ensures
            keys_ascending(self.sorted_pairs()),
            forall|i: int|
                0 <= i < self.sorted_pairs().len() ==> self.view().contains_key(
                    #[trigger] self.sorted_pairs()[i].0,
                ) && self.view()[self.sorted_pairs()[i].0] == self.sorted_pairs()[i].1,
            forall|k: Seq<char>|
                #[trigger] self.view().contains_key(k) ==> exists|i: int|
                    0 <= i < self.sorted_pairs().len() && self.sorted_pairs()[i].0 == k,
            self.view().dom().finite(),
            self.view().len() == self.sorted_pairs().len(),
    {
        lemma_map_of_pairs(self.sorted_pairs());
    }

    /// An empty map.
    pub fn new() -> (m: Self)
        ensures
            m.wf(),
            m.view() == Map::<Seq<char>, V>::empty(),
            m.sorted_pairs().len() == 0,
    {
        let m = SortedMap { entries: Vec::new() };
        assert(pair_views(m.entries@) =~= Seq::<(Seq<char>, V)>::empty());
        m
    }

    /// The number of entries.
    pub fn len(&self) -> (n: usize)
        requires
            self.wf(),
        ensures
            n == self.view().len(),
            n == self.sorted_pairs().len(),
    {
        proof {
            self.lemma_sorted_pairs();
        }
        self.entries.len()
    }

    /// The key of the `i`-th entry in key order.
    pub fn key_at(&self, i: usize) -> (k: &Vec<char>)
        requires
            i < self.sorted_pairs().len(),
        ensures
            k@ == self.sorted_pairs()[i as int].0,
    {
        &self.entries[i].0
    }

    /// The value of the `i`-th entry in key order.
    pub fn value_at(&self, i: usize) -> (v: &V)
        requires
            i < self.sorted_pairs().len(),
        ensures
            *v == self.sorted_pairs()[i as int].1,
    {
        &self.entries[i].1
    }

    /// Position of the first entry whose key is not below `key`.
    fn lower_bound(&self, key: &[char]) -> (r: (usize, bool))
        requires
            self.wf(),
        ensures
            r.0 <= self.sorted_pairs().len(),
            forall|j: int| 0 <= j < r.0 ==> lex_lt(#[trigger] self.sorted_pairs()[j].0, key@),
            r.0 < self.sorted_pairs().len() ==> !lex_lt(self.sorted_pairs()[r.0 as int].0, key@),
            r.1 <==> (r.0 < self.sorted_pairs().len() && self.sorted_pairs()[r.0 as int].0
                == key@),
    {
        let n = self.entries.len();
        let mut i: usize = 0;
        while i < n
            invariant
                n == self.sorted_pairs().len(),
                i <= n,
                forall|j: int| 0 <= j < i ==> lex_lt(#[trigger] self.sorted_pairs()[j].0, key@),
            decreases n - i,
        {
            match compare_chars(self.entries[i].0.as_slice(), key) {
                KeyOrder::Less => {
                    i = i + 1;
                },
                KeyOrder::Equal => {
                    return (i, true);
                },
                KeyOrder::Greater => {
                    proof {
                        lemma_lex_irreflexive(key@);
                        if lex_lt(self.sorted_pairs()[i as int].0, key@) {
                            lemma_lex_transitive(key@, self.sorted_pairs()[i as int].0, key@);
                        }
                    }
                    return (i, false);
                },
            }
        }
        (i, false)
    }

    /// The value under `key`, if any.
    pub fn get(&self, key: &[char]) -> (r: Option<&V>)
        requires
            self.wf(),
        ensures
            match r {
                Some(v) => self.view().contains_key(key@) && *v == self.view()[key@],
                None => !self.view().contains_key(key@),
            },
    {
        proof {
            self.lemma_sorted_pairs();
        }
        let (i, found) = self.lower_bound(key);
        if found {
            Some(&self.entries[i].1)
        } else {
            proof {
                let p = self.sorted_pairs();
                if self.view().contains_key(key@) {
                    let j = choose|j: int| 0 <= j < p.len() && p[j].0 == key@;
                    lemma_lex_irreflexive(key@);
                    if j < i {
                    } else if j > i {
                        assert(lex_lt(p[i as int].0, p[j].0));
                        lemma_lex_total(p[i as int].0, key@);
                        if lex_lt(key@, p[i as int].0) {
                            lemma_lex_transitive(key@, p[i as int].0, key@);
                        }
                    }
                }
            }
            None
        }
    }

    /// Whether `key` has an entry.
    pub fn contains_key(&self, key: &[char]) -> (r: bool)
        requires
            self.wf(),
        ensures
            r == self.view().contains_key(key@),
    {
        self.get(key).is_some()
    }

    /// Puts `value` under `key`, replacing any value there.
    pub fn insert(&mut self, key: Vec<char>, value: V)
        requires
            old(self).wf(),
        ensures
            final(self).wf(),
            final(self).view() == old(self).view().insert(key@, value),
    {
        proof {
            lemma_map_of_pairs(self.sorted_pairs());
        }
        let (i, found) = self.lower_bound(key.as_slice());
        let ghost old_p = self.sorted_pairs();
        let ghost k = key@;
        if found {
            self.entries.set(i, (key, value));
        } else {
            self.entries.insert(i, (key, value));
        }
        let ghost new_p = pair_views(self.entries@);
        proof {
            if found {
                assert(new_p =~= old_p.update(i as int, (k, value)));
            } else {
                assert(new_p =~= old_p.insert(i as int, (k, value)));
            }
            assert(keys_ascending(new_p)) by {
                assert forall|a: int, b: int| 0 <= a < b < new_p.len() implies lex_lt(
                    #[trigger] new_p[a].0,
                    #[trigger] new_p[b].0,
                ) by {
                    if found {
                        if a != i && b != i {
                            assert(new_p[a] == old_p[a] && new_p[b] == old_p[b]);
                        } else if a == i {
                            assert(new_p[b] == old_p[b]);
                        } else {
                            assert(new_p[a] == old_p[a]);
                        }
                    } else {
                        if b < i {
                            assert(new_p[a] == old_p[a] && new_p[b] == old_p[b]);
                        } else if b == i {
                            assert(new_p[a] == old_p[a]);
                        } else if a > i {
                            assert(new_p[a] == old_p[a - 1] && new_p[b] == old_p[b - 1]);
                        } else if a == i {
                            assert(new_p[b] == old_p[b - 1]);
                            assert(!lex_lt(old_p[i as int].0, k));
                            lemma_lex_total(old_p[i as int].0, k);
                            if b - 1 > i {
                                lemma_lex_transitive(k, old_p[i as int].0, old_p[b - 1].0);
                            }
                        } else {
                            assert(new_p[a] == old_p[a] && new_p[b] == old_p[b - 1]);
                            assert(lex_lt(old_p[a].0, k));
                            lemma_lex_total(old_p[i as int].0, k);
                            if b - 1 > i {
                                lemma_lex_transitive(k, old_p[i as int].0, old_p[b - 1].0);
                                lemma_lex_transitive(old_p[a].0, k, old_p[b - 1].0);
                            } else {
                                lemma_lex_transitive(old_p[a].0, k, old_p[i as int].0);
                            }
                        }
                    }
                }
            }
            lemma_map_of_pairs(new_p);
            let old_m = map_of_pairs(old_p);
            let new_m = map_of_pairs(new_p);
            assert(new_p[i as int] == (k, value));
            assert(new_m.contains_key(new_p[i as int].0));
            assert forall|x: Seq<char>| new_m.contains_key(x) <==> old_m.insert(
                k,
                value,
            ).contains_key(x) by {
                if new_m.contains_key(x) && x != k {
                    let j = choose|j: int| 0 <= j < new_p.len() && new_p[j].0 == x;
                    if found {
                        assert(new_p[j] == old_p[j]);
                        assert(old_m.contains_key(old_p[j].0));
                    } else if j < i {
                        assert(new_p[j] == old_p[j]);
                        assert(old_m.contains_key(old_p[j].0));
                    } else {
                        assert(new_p[j] == old_p[j - 1]);
                        assert(old_m.contains_key(old_p[j - 1].0));
                    }
                }
                if old_m.contains_key(x) && x != k {
                    let j = choose|j: int| 0 <= j < old_p.len() && old_p[j].0 == x;
                    if found {
                        assert(new_p[j] == old_p[j]);
                        assert(new_m.contains_key(new_p[j].0));
                    } else if j < i {
                        assert(new_p[j] == old_p[j]);
                        assert(new_m.contains_key(new_p[j].0));
                    } else {
                        assert(new_p[j + 1] == old_p[j]);
                        assert(new_m.contains_key(new_p[j + 1].0));
                    }
                }
            }
            assert forall|x: Seq<char>| #[trigger] new_m.contains_key(x) implies new_m[x]
                == old_m.insert(k, value)[x] by {
                if x != k {
                    assert(old_m.contains_key(x));
                    let j = choose|j: int| 0 <= j < old_p.len() && old_p[j].0 == x;
                    assert(old_m[old_p[j].0] == old_p[j].1);
                    if found {
                        assert(new_p[j] == old_p[j]);
                        assert(new_m[new_p[j].0] == new_p[j].1);
                    } else if j < i {
                        assert(new_p[j] == old_p[j]);
                        assert(new_m[new_p[j].0] == new_p[j].1);
                    } else {
                        assert(new_p[j + 1] == old_p[j]);
                        assert(new_m[new_p[j + 1].0] == new_p[j + 1].1);
                    }
                } else {
                    assert(new_m[new_p[i as int].0] == new_p[i as int].1);
                }
            }
            assert(new_m =~= old_m.insert(k, value));
        }
    }
}

} // verus!
