//! An ordered map keyed by strings, kept sorted by the byte order of its keys,
//! which is the order `String`'s `Ord` gives and in which a `BTreeMap<String, _>`
//! walks its entries.
use vstd::prelude::*;
use vstd::utf8::*;

verus! {

broadcast use encode_utf8_decode_utf8;

/// Lexicographic order on byte strings (the order of `[u8]`'s `Ord`).
pub open spec fn bytes_lt(a: Seq<u8>, b: Seq<u8>) -> bool
    decreases a.len(),
{
    if a.len() == 0 {
        b.len() > 0
    } else if b.len() == 0 {
        false
    } else if a[0] != b[0] {
        a[0] < b[0]
    } else {
        bytes_lt(a.drop_first(), b.drop_first())
    }
}

/// Order on texts: that of their UTF-8 encodings, as `str`'s `Ord` compares them.
pub open spec fn key_lt(a: Seq<char>, b: Seq<char>) -> bool {
    bytes_lt(encode_utf8(a), encode_utf8(b))
}

pub proof fn lemma_bytes_lt_irreflexive(a: Seq<u8>)
    ensures
        !bytes_lt(a, a),
    decreases a.len(),
{
    if a.len() > 0 {
        lemma_bytes_lt_irreflexive(a.drop_first());
    }
}

pub proof fn lemma_bytes_lt_asymmetric(a: Seq<u8>, b: Seq<u8>)
    ensures
        bytes_lt(a, b) ==> !bytes_lt(b, a),
    decreases a.len(),
{
    if a.len() > 0 && b.len() > 0 && a[0] == b[0] {
        lemma_bytes_lt_asymmetric(a.drop_first(), b.drop_first());
    }
}

pub proof fn lemma_bytes_lt_transitive(a: Seq<u8>, b: Seq<u8>, c: Seq<u8>)
    requires
        bytes_lt(a, b),
        bytes_lt(b, c),
    ensures
        bytes_lt(a, c),
    decreases a.len(),
{
    if a.len() > 0 && b.len() > 0 && c.len() > 0 && a[0] == b[0] && b[0] == c[0] {
        lemma_bytes_lt_transitive(a.drop_first(), b.drop_first(), c.drop_first());
    }
}

pub proof fn lemma_key_lt_strict(a: Seq<char>, b: Seq<char>)
    ensures
        key_lt(a, b) ==> a != b && !key_lt(b, a),
{
    lemma_bytes_lt_irreflexive(encode_utf8(a));
    lemma_bytes_lt_asymmetric(encode_utf8(a), encode_utf8(b));
}

pub proof fn lemma_key_lt_transitive(a: Seq<char>, b: Seq<char>, c: Seq<char>)
    requires
        key_lt(a, b),
        key_lt(b, c),
    ensures
        key_lt(a, c),
{
    lemma_bytes_lt_transitive(encode_utf8(a), encode_utf8(b), encode_utf8(c));
}

/// Three-way comparison of byte strings: negative, zero or positive.
pub fn compare_bytes(a: &[u8], b: &[u8]) -> (res: i8)
    ensures
        res == 0 <==> a@ == b@,
        res < 0 <==> bytes_lt(a@, b@),
        res > 0 <==> bytes_lt(b@, a@),
{
    let mut i: usize = 0;
    proof {
        assert(a@.skip(0) =~= a@);
        assert(b@.skip(0) =~= b@);
        assert(a@.take(0) =~= b@.take(0));
    }
    while i < a.len() && i < b.len()
        invariant
            i <= a@.len(),
            i <= b@.len(),
            a@.take(i as int) == b@.take(i as int),
            bytes_lt(a@, b@) == bytes_lt(a@.skip(i as int), b@.skip(i as int)),
            bytes_lt(b@, a@) == bytes_lt(b@.skip(i as int), a@.skip(i as int)),
        decreases a@.len() - i,
    {
        if a[i] != b[i] {
            proof {
                assert(a@.skip(i as int)[0] == a@[i as int]);
                assert(b@.skip(i as int)[0] == b@[i as int]);
                assert(a@[i as int] != b@[i as int]);
            }
            if a[i] < b[i] {
                return -1;
            } else {
                return 1;
            }
        }
        proof {
            assert(a@.skip(i as int).drop_first() =~= a@.skip(i + 1));
            assert(b@.skip(i as int).drop_first() =~= b@.skip(i + 1));
            assert(a@.take(i + 1) =~= a@.take(i as int).push(a@[i as int]));
            assert(b@.take(i + 1) =~= b@.take(i as int).push(b@[i as int]));
        }
        i = i + 1;
    }
    proof {
        if i == a@.len() {
            assert(a@.take(i as int) =~= a@);
        }
        if i == b@.len() {
            assert(b@.take(i as int) =~= b@);
        }
        assert(a@.skip(i as int).len() == 0 || b@.skip(i as int).len() == 0);
    }
    if a.len() < b.len() {
        proof {
            assert(a@ != b@);
        }
        -1
    } else if a.len() > b.len() {
        proof {
            assert(a@ != b@);
        }
        1
    } else {
        proof {
            assert(a@ =~= b@);
            lemma_bytes_lt_irreflexive(a@);
        }
        0
    }
}

/// Three-way comparison of texts in the order of `str`'s `Ord`.
pub fn compare_text(a: &str, b: &str) -> (res: i8)
    ensures
        res == 0 <==> a@ == b@,
        res < 0 <==> key_lt(a@, b@),
        res > 0 <==> key_lt(b@, a@),
{
    let r = compare_bytes(a.as_bytes(), b.as_bytes());
    proof {
        if encode_utf8(a@) == encode_utf8(b@) {
            assert(decode_utf8(encode_utf8(a@)) == a@);
            assert(decode_utf8(encode_utf8(b@)) == b@);
        }
    }
    r
}

/// A map from strings to values whose entries are kept in ascending key order.
pub struct StrMap<V> {
    entries: Vec<(String, V)>,
}

impl<V> StrMap<V> {
    /// Keys in their stored order.
    pub closed spec fn key_seq(self) -> Seq<Seq<char>> {
        self.entries@.map_values(|e: (String, V)| e.0@)
    }

    /// Values in their stored order.
    pub closed spec fn value_seq(self) -> Seq<V> {
        self.entries@.map_values(|e: (String, V)| e.1)
    }

    /// Keys strictly ascending: the map's lasting invariant.
    #[verifier::type_invariant]
    closed spec fn keys_ascending(self) -> bool {
        sorted_keys(self.key_seq())
    }

    /// The keys in ascending order of their UTF-8 bytes.
    pub open spec fn ordered_keys(self) -> Seq<Seq<char>> {
        self.key_seq()
    }

    /// The map as a mathematical map.
    pub closed spec fn as_map(self) -> Map<Seq<char>, V> {
        Map::new(
            |k: Seq<char>| self.key_seq().contains(k),
            |k: Seq<char>| self.value_seq()[self.key_seq().index_of(k)],
        )
    }
}

/// Strictly ascending keys.
pub open spec fn sorted_keys(ks: Seq<Seq<char>>) -> bool {
    forall|i: int, j: int| 0 <= i < j < ks.len() ==> key_lt(#[trigger] ks[i], #[trigger] ks[j])
}

proof fn lemma_sorted_index_of(ks: Seq<Seq<char>>, i: int)
    requires
        sorted_keys(ks),
        0 <= i < ks.len(),
    ensures
        ks.contains(ks[i]),
        ks.index_of(ks[i]) == i,
{
    let j = ks.index_of(ks[i]);
    assert(ks.contains(ks[i]));
    if j != i {
        if j < i {
            lemma_key_lt_strict(ks[j], ks[i]);
        } else {
            lemma_key_lt_strict(ks[i], ks[j]);
        }
    }
}

impl<V> View for StrMap<V> {
    type V = Map<Seq<char>, V>;

    open spec fn view(&self) -> Map<Seq<char>, V> {
        self.as_map()
    }
}

impl<V> StrMap<V> {
    /// The empty map.
    pub fn new() -> (res: Self)
        ensures
            res@ == Map::<Seq<char>, V>::empty(),
            res.ordered_keys() == Seq::<Seq<char>>::empty(),
    {
        let res = StrMap { entries: Vec::new() };
        proof {
            assert(res.key_seq() =~= Seq::<Seq<char>>::empty());
            assert(res.as_map() =~= Map::<Seq<char>, V>::empty());
        }
        res
    }

    /// Facts that hold of every map: keys ascending, and the ordered keys are the domain.
    pub proof fn lemma_shape(self)
        requires
            sorted_keys(self.ordered_keys()),
        ensures
            self@.dom() == self.ordered_keys().to_set(),
            self@.dom().finite(),
            forall|i: int|
                0 <= i < self.ordered_keys().len() ==> #[trigger] self@[self.ordered_keys()[i]]
                    == self.value_seq()[i],
    {
        assert(self@.dom() =~= self.key_seq().to_set());
        assert forall|i: int| 0 <= i < self.ordered_keys().len() implies #[trigger] self@[self.ordered_keys()[i]]
            == self.value_seq()[i] by {
            lemma_sorted_index_of(self.key_seq(), i);
        }
    }

    /// Number of entries.
    pub fn len(&self) -> (res: usize)
        ensures
            res == self.ordered_keys().len(),
    {
        self.entries.len()
    }

    /// Position at which `key` stands or would be inserted: every key before it is
    /// smaller, and the key there, if any, is not smaller.
    fn position(&self, key: &str) -> (res: (usize, bool))
        ensures
            res.0 <= self.key_seq().len(),
            forall|i: int| 0 <= i < res.0 ==> key_lt(#[trigger] self.key_seq()[i], key@),
            res.1 <==> (res.0 < self.key_seq().len() && self.key_seq()[res.0 as int] == key@),
            res.0 < self.key_seq().len() && !res.1 ==> key_lt(key@, self.key_seq()[res.0 as int]),
    {
        let mut i: usize = 0;
        while i < self.entries.len()
            invariant
                i <= self.entries@.len(),
                forall|j: int| 0 <= j < i ==> key_lt(#[trigger] self.key_seq()[j], key@),
            decreases self.entries@.len() - i,
        {
            let c = compare_text(self.entries[i].0.as_str(), key);
            if c >= 0 {
                proof {
                    if c > 0 {
                        lemma_key_lt_strict(key@, self.key_seq()[i as int]);
                    }
                }
                return (i, c == 0);
            }
            i = i + 1;
        }
        (i, false)
    }

    /// The value stored under `key`.
    pub fn get(&self, key: &str) -> (res: Option<&V>)
        ensures
            match res {
                Some(v) => self@.contains_key(key@) && *v == self@[key@],
                None => !self@.contains_key(key@),
            },
    {
        proof {
            use_type_invariant(self);
        }
        let (p, found) = self.position(key);
        proof {
            self.lemma_shape();
            if !found {
                assert(!self.key_seq().contains(key@)) by {
                    if self.key_seq().contains(key@) {
                        let j = self.key_seq().index_of(key@);
                        if j < p {
                            lemma_key_lt_strict(self.key_seq()[j], key@);
                        } else {
                            lemma_key_lt_strict(key@, self.key_seq()[p as int]);
                            if j > p {
                                lemma_key_lt_strict(self.key_seq()[p as int], self.key_seq()[j]);
                                lemma_key_lt_transitive(key@, self.key_seq()[p as int], self.key_seq()[j]);
                                lemma_key_lt_strict(key@, self.key_seq()[j]);
                            }
                        }
                    }
                }
            }
        }
        if found {
            proof {
                lemma_sorted_index_of(self.key_seq(), p as int);
            }
            Some(&self.entries[p].1)
        } else {
            None
        }
    }

    /// Whether `key` has a value.
    pub fn contains_key(&self, key: &str) -> (res: bool)
        ensures
            res == self@.contains_key(key@),
    {
        self.get(key).is_some()
    }

    /// Stores `value` under `key`, replacing any earlier value; the keys stay ascending.
    pub fn insert(&mut self, key: String, value: V)
        ensures
            final(self)@ == old(self)@.insert(key@, value),
    {
        proof {
            use_type_invariant(&*self);
        }
        let (p, found) = self.position(key.as_str());
        let ghost ks = self.key_seq();
        let ghost vs = self.value_seq();
        let ghost k = key@;
        let ghost old_map = self@;
        let mut entries: Vec<(String, V)> = Vec::new();
        std::mem::swap(&mut entries, &mut self.entries);
        proof {
            assert(entries@.map_values(|e: (String, V)| e.0@) == ks);
            assert(entries@.map_values(|e: (String, V)| e.1) == vs);
        }
        if found {
            entries.set(p, (key, value));
        } else {
            entries.insert(p, (key, value));
        }
        let ghost nks = entries@.map_values(|e: (String, V)| e.0@);
        let ghost nvs = entries@.map_values(|e: (String, V)| e.1);
        proof {
            if found {
                assert(nks =~= ks.update(p as int, k));
                assert(nvs =~= vs.update(p as int, value));
                assert(sorted_keys(nks));
            } else {
                assert(nks =~= ks.insert(p as int, k));
                assert(nvs =~= vs.insert(p as int, value));
                assert forall|i: int, j: int| 0 <= i < j < nks.len() implies key_lt(
                    #[trigger] nks[i],
                    #[trigger] nks[j],
                ) by {
                    if j == p {
                    } else if i == p {
                        lemma_key_lt_strict(k, ks[p as int]);
                        if j - 1 > p {
                            lemma_key_lt_transitive(k, ks[p as int], ks[j - 1]);
                        }
                    } else if i < p && j > p {
                        assert(nks[j] == ks[j - 1]);
                    }
                }
            }
        }
        self.entries = entries;
        proof {
            let m = self.as_map();
            assert(self.key_seq() == nks);
            assert(self.value_seq() == nvs);
            self.lemma_shape();
            assert forall|q: Seq<char>| m.contains_key(q) <==> old_map.insert(k, value).contains_key(q) by {
                if q == k {
                    assert(nks[p as int] == k);
                } else if old_map.contains_key(q) {
                    let j = ks.index_of(q);
                    if found || j < p {
                        assert(nks[j] == q);
                    } else {
                        assert(nks[j + 1] == q);
                    }
                } else if m.contains_key(q) {
                    let j = nks.index_of(q);
                    if found || j < p {
                        assert(ks[j] == q);
                    } else {
                        assert(ks[j - 1] == q);
                    }
                }
            }
            assert forall|q: Seq<char>| #[trigger] m.contains_key(q) implies m[q] == old_map.insert(
                k,
                value,
            )[q] by {
                let j = nks.index_of(q);
                lemma_sorted_index_of(nks, j);
                if q == k {
                    lemma_sorted_index_of(nks, p as int);
                } else {
                    let oj = if found || j < p {
                        j
                    } else {
                        j - 1
                    };
                    assert(ks[oj] == q);
                    lemma_sorted_index_of(ks, oj);
                }
            }
            assert(m =~= old_map.insert(k, value));
        }
    }

    /// Takes out the value stored under `key`, if there is one.
    pub fn remove(&mut self, key: &str) -> (res: Option<V>)
        ensures
            match res {
                Some(v) => old(self)@.contains_key(key@) && v == old(self)@[key@],
                None => !old(self)@.contains_key(key@),
            },
            final(self)@ == old(self)@.remove(key@),
    {
        proof {
            use_type_invariant(&*self);
        }
        let present = self.contains_key(key);
        if !present {
            proof {
                assert(self@.remove(key@) =~= self@);
            }
            return None;
        }
        let (p, found) = self.position(key);
        let ghost ks = self.key_seq();
        let ghost vs = self.value_seq();
        let ghost k = key@;
        let ghost old_map = self@;
        proof {
            self.lemma_shape();
            let j = ks.index_of(k);
            if !found {
                if j < p {
                    lemma_key_lt_strict(ks[j], k);
                } else {
                    lemma_key_lt_strict(k, ks[p as int]);
                    if j > p {
                        lemma_key_lt_transitive(k, ks[p as int], ks[j]);
                        lemma_key_lt_strict(k, ks[j]);
                    }
                }
            }
            lemma_sorted_index_of(ks, p as int);
        }
        let mut entries: Vec<(String, V)> = Vec::new();
        std::mem::swap(&mut entries, &mut self.entries);
        proof {
            assert(entries@.map_values(|e: (String, V)| e.0@) == ks);
            assert(entries@.map_values(|e: (String, V)| e.1) == vs);
        }
        let (_, v) = entries.remove(p);
        let ghost nks = entries@.map_values(|e: (String, V)| e.0@);
        let ghost nvs = entries@.map_values(|e: (String, V)| e.1);
        proof {
            assert(nks =~= ks.remove(p as int));
            assert(nvs =~= vs.remove(p as int));
        }
        self.entries = entries;
        proof {
            let m = self.as_map();
            assert(self.key_seq() == nks);
            assert(self.value_seq() == nvs);
            self.lemma_shape();
            assert forall|q: Seq<char>| m.contains_key(q) <==> old_map.remove(k).contains_key(q) by {
                if q == k {
                    if m.contains_key(q) {
                        let j = nks.index_of(q);
                        if j < p {
                            assert(ks[j] == k);
                            lemma_key_lt_strict(ks[j], ks[p as int]);
                        } else {
                            assert(ks[j + 1] == k);
                            lemma_key_lt_strict(ks[p as int], ks[j + 1]);
                        }
                    }
                } else if old_map.contains_key(q) {
                    let j = ks.index_of(q);
                    if j < p {
                        assert(nks[j] == q);
                    } else {
                        assert(nks[j - 1] == q);
                    }
                } else if m.contains_key(q) {
                    let j = nks.index_of(q);
                    if j < p {
                        assert(ks[j] == q);
                    } else {
                        assert(ks[j + 1] == q);
                    }
                }
            }
            assert forall|q: Seq<char>| #[trigger] m.contains_key(q) implies m[q] == old_map.remove(
                k,
            )[q] by {
                let j = nks.index_of(q);
                lemma_sorted_index_of(nks, j);
                let oj = if j < p {
                    j
                } else {
                    j + 1
                };
                assert(ks[oj] == q);
                lemma_sorted_index_of(ks, oj);
            }
            assert(m =~= old_map.remove(k));
        }
        Some(v)
    }

    /// The values, in ascending order of their keys.
    pub fn values(&self) -> (res: Vec<&V>)
        ensures
            sorted_keys(self.ordered_keys()),
            res@.len() == self.ordered_keys().len(),
            forall|i: int| 0 <= i < res@.len() ==> *res@[i] == self@[self.ordered_keys()[i]],
    {
        proof {
            use_type_invariant(self);
            self.lemma_shape();
        }
        let mut res: Vec<&V> = Vec::new();
        let mut i: usize = 0;
        while i < self.entries.len()
            invariant
                i <= self.entries@.len(),
                res@.len() == i,
                forall|j: int| 0 <= j < i ==> *res@[j] == self.value_seq()[j],
            decreases self.entries@.len() - i,
        {
            res.push(&self.entries[i].1);
            i = i + 1;
        }
        proof {
            assert forall|j: int| 0 <= j < res@.len() implies *res@[j] == self@[self.ordered_keys()[j]] by {
                assert(self@[self.ordered_keys()[j]] == self.value_seq()[j]);
            }
        }
        res
    }

    /// The entries as (key, value) pairs, in ascending key order.
    pub fn pairs(&self) -> (res: Vec<(&String, &V)>)
        ensures
            sorted_keys(self.ordered_keys()),
            res@.len() == self.ordered_keys().len(),
            forall|i: int|
                0 <= i < res@.len() ==> (#[trigger] res@[i]).0@ == self.ordered_keys()[i] && *res@[i].1
                    == self@[self.ordered_keys()[i]],
    {
        proof {
            use_type_invariant(self);
            self.lemma_shape();
        }
        let mut res: Vec<(&String, &V)> = Vec::new();
        let mut i: usize = 0;
        while i < self.entries.len()
            invariant
                i <= self.entries@.len(),
                res@.len() == i,
                forall|j: int|
                    0 <= j < i ==> (#[trigger] res@[j]).0@ == self.key_seq()[j] && *res@[j].1
                        == self.value_seq()[j],
            decreases self.entries@.len() - i,
        {
            let e = &self.entries[i];
            res.push((&e.0, &e.1));
            i = i + 1;
        }
        proof {
            assert forall|j: int| 0 <= j < res@.len() implies (#[trigger] res@[j]).0@ == self.ordered_keys()[j]
                && *res@[j].1 == self@[self.ordered_keys()[j]] by {
                assert(self@[self.ordered_keys()[j]] == self.value_seq()[j]);
            }
        }
        res
    }

    /// The entries as owned (key, value) pairs, in ascending key order.
    pub fn into_pairs(self) -> (res: Vec<(String, V)>)
        ensures
            sorted_keys(self.ordered_keys()),
            res@.len() == self.ordered_keys().len(),
            forall|i: int|
                0 <= i < res@.len() ==> (#[trigger] res@[i]).0@ == self.ordered_keys()[i] && res@[i].1
                    == self@[self.ordered_keys()[i]],
    {
        proof {
            use_type_invariant(&self);
            self.lemma_shape();
        }
        let StrMap { entries } = self;
        proof {
            assert forall|i: int| 0 <= i < entries@.len() implies (#[trigger] entries@[i]).0@ == self.ordered_keys()[i]
                && entries@[i].1 == self@[self.ordered_keys()[i]] by {
                assert(self@[self.ordered_keys()[i]] == self.value_seq()[i]);
            }
        }
        entries
    }
}

} // verus!
