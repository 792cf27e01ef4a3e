//! An ordered map from console input id to captured W3C descriptor, iterated in
//! ascending key order (byte order of the UTF-8 text, i.e. code-point order).
use vstd::prelude::*;
use crate::text::{chars_of, eq_vec};

verus! {

/// Strict lexicographic order by code point.
pub open spec fn lex_lt(a: Seq<char>, b: Seq<char>) -> bool
    decreases a.len(),
{
    if a.len() == 0 {
        b.len() > 0
    } else if b.len() == 0 {
        false
    } else if a[0] != b[0] {
        a[0] < b[0]
    } else {
        lex_lt(a.drop_first(), b.drop_first())
    }
}

pub open spec fn sorted_keys(s: Seq<(Seq<char>, Seq<char>)>) -> bool {
    forall|i: int, j: int| 0 <= i < j < s.len() ==> lex_lt(#[trigger] s[i].0, #[trigger] s[j].0)
}

/// How many leading entries have a key below `k`.
pub open spec fn leading_lt(s: Seq<(Seq<char>, Seq<char>)>, k: Seq<char>) -> nat
    decreases s.len(),
{
    if s.len() > 0 && lex_lt(s[0].0, k) {
        1 + leading_lt(s.drop_first(), k)
    } else {
        0
    }
}

/// `BTreeMap::insert` on the sorted entry list.
pub open spec fn sorted_insert(s: Seq<(Seq<char>, Seq<char>)>, k: Seq<char>, v: Seq<char>) -> Seq<
    (Seq<char>, Seq<char>),
> {
    let i = leading_lt(s, k) as int;
    if i < s.len() && s[i].0 == k {
        s.update(i, (k, v))
    } else {
        s.insert(i, (k, v))
    }
}

/// The value stored under `k`, if any (first match).
pub open spec fn lookup(s: Seq<(Seq<char>, Seq<char>)>, k: Seq<char>) -> Option<Seq<char>>
    decreases s.len(),
{
    if s.len() == 0 {
        None
    } else if s[0].0 == k {
        Some(s[0].1)
    } else {
        lookup(s.drop_first(), k)
    }
}

pub proof fn lemma_lex_irrefl(a: Seq<char>)
    ensures
        !lex_lt(a, a),
    decreases a.len(),
{
    if a.len() > 0 {
        lemma_lex_irrefl(a.drop_first());
    }
}

pub proof fn lemma_lex_trans(a: Seq<char>, b: Seq<char>, c: Seq<char>)
    requires
        lex_lt(a, b),
        lex_lt(b, c),
    ensures
        lex_lt(a, c),
    decreases a.len(),
{
    if a.len() > 0 && b.len() > 0 && c.len() > 0 && a[0] == b[0] && b[0] == c[0] {
        lemma_lex_trans(a.drop_first(), b.drop_first(), c.drop_first());
    }
}

pub proof fn lemma_lex_total(a: Seq<char>, b: Seq<char>)
    ensures
        a == b || lex_lt(a, b) || lex_lt(b, a),
    decreases a.len(),
{
    if a.len() > 0 && b.len() > 0 && a[0] == b[0] {
        lemma_lex_total(a.drop_first(), b.drop_first());
        if a.drop_first() == b.drop_first() {
            assert(a =~= seq![a[0]] + a.drop_first());
            assert(b =~= seq![b[0]] + b.drop_first());
        }
    } else if a.len() == 0 && b.len() == 0 {
        assert(a =~= b);
    }
}

pub proof fn lemma_leading_lt(s: Seq<(Seq<char>, Seq<char>)>, k: Seq<char>)
    ensures
        leading_lt(s, k) <= s.len(),
        forall|j: int| 0 <= j < leading_lt(s, k) ==> lex_lt(#[trigger] s[j].0, k),
        leading_lt(s, k) < s.len() ==> !lex_lt(s[leading_lt(s, k) as int].0, k),
    decreases s.len(),
{
    if s.len() > 0 && lex_lt(s[0].0, k) {
        lemma_leading_lt(s.drop_first(), k);
        assert forall|j: int| 0 <= j < leading_lt(s, k) implies lex_lt(#[trigger] s[j].0, k) by {
            if j > 0 {
                assert(s[j] == s.drop_first()[j - 1]);
            }
        }
    }
}

/// Inserting into sorted entries keeps them sorted.
pub proof fn lemma_sorted_insert(s: Seq<(Seq<char>, Seq<char>)>, k: Seq<char>, v: Seq<char>)
    requires
        sorted_keys(s),
    ensures
        sorted_keys(sorted_insert(s, k, v)),
{
    lemma_leading_lt(s, k);
    let i = leading_lt(s, k) as int;
    let r = sorted_insert(s, k, v);
    if i < s.len() && s[i].0 == k {
        assert forall|a: int, b: int| 0 <= a < b < r.len() implies lex_lt(
            #[trigger] r[a].0,
            #[trigger] r[b].0,
        ) by {
            assert(r[a].0 == s[a].0);
            assert(r[b].0 == s[b].0);
        }
    } else {
        assert forall|a: int, b: int| 0 <= a < b < r.len() implies lex_lt(
            #[trigger] r[a].0,
            #[trigger] r[b].0,
        ) by {
            if a < i && b < i {
                assert(r[a] == s[a] && r[b] == s[b]);
            } else if a < i && b == i {
                assert(r[a] == s[a]);
            } else if a < i && b > i {
                assert(r[a] == s[a] && r[b] == s[b - 1]);
            } else if a == i {
                assert(r[b] == s[b - 1]);
                if i < s.len() {
                    lemma_lex_total(s[i].0, k);
                    if b - 1 > i {
                        lemma_lex_trans(k, s[i].0, s[b - 1].0);
                    }
                }
            } else {
                assert(r[a] == s[a - 1] && r[b] == s[b - 1]);
            }
        }
    }
}


proof fn lemma_lookup_at(s: Seq<(Seq<char>, Seq<char>)>, k: Seq<char>, j: int)
    requires
        0 <= j < s.len(),
        s[j].0 == k,
        forall|a: int| 0 <= a < j ==> (#[trigger] s[a]).0 != k,
    ensures
        lookup(s, k) == Some(s[j].1),
    decreases j,
{
    if j > 0 {
        assert(s[0].0 != k);
        assert forall|a: int| 0 <= a < j - 1 implies (#[trigger] s.drop_first()[a]).0 != k by {
            assert(s.drop_first()[a] == s[a + 1]);
        }
        lemma_lookup_at(s.drop_first(), k, j - 1);
    }
}

proof fn lemma_lookup_absent(s: Seq<(Seq<char>, Seq<char>)>, k: Seq<char>)
    requires
        forall|a: int| 0 <= a < s.len() ==> (#[trigger] s[a]).0 != k,
    ensures
        lookup(s, k) is None,
    decreases s.len(),
{
    if s.len() > 0 {
        assert(s[0].0 != k);
        assert forall|a: int| 0 <= a < s.len() - 1 implies (#[trigger] s.drop_first()[a]).0 != k by {
            assert(s.drop_first()[a] == s[a + 1]);
        }
        lemma_lookup_absent(s.drop_first(), k);
    }
}

/// In sorted entries, a key found at `j` is found nowhere else.
proof fn lemma_sorted_unique(s: Seq<(Seq<char>, Seq<char>)>, j: int)
    requires
        sorted_keys(s),
        0 <= j < s.len(),
    ensures
        forall|a: int| 0 <= a < s.len() && a != j ==> (#[trigger] s[a]).0 != s[j].0,
{
    assert forall|a: int| 0 <= a < s.len() && a != j implies (#[trigger] s[a]).0 != s[j].0 by {
        lemma_lex_irrefl(s[j].0);
        if a < j {
            assert(lex_lt(s[a].0, s[j].0));
        } else {
            assert(lex_lt(s[j].0, s[a].0));
        }
    }
}

/// The value sorted entries hold under `k`: the one entry with that key.
proof fn lemma_lookup_sorted(s: Seq<(Seq<char>, Seq<char>)>, k: Seq<char>, j: int)
    requires
        sorted_keys(s),
        0 <= j < s.len(),
        s[j].0 == k,
    ensures
        lookup(s, k) == Some(s[j].1),
{
    lemma_sorted_unique(s, j);
    lemma_lookup_at(s, k, j);
}

/// After inserting `v` under `k`, a lookup of `k` gives `v`, and a lookup of
/// any other key gives what it gave before.
pub proof fn law_insert_then_lookup(
    s: Seq<(Seq<char>, Seq<char>)>,
    k: Seq<char>,
    v: Seq<char>,
    other: Seq<char>,
)
    requires
        sorted_keys(s),
    ensures
        lookup(sorted_insert(s, k, v), k) == Some(v),
        other != k ==> lookup(sorted_insert(s, k, v), other) == lookup(s, other),
{
    lemma_leading_lt(s, k);
    lemma_sorted_insert(s, k, v);
    let i = leading_lt(s, k) as int;
    let r = sorted_insert(s, k, v);
    assert(r[i] == (k, v));
    lemma_lookup_sorted(r, k, i);
    if other != k {
        if exists|j: int| 0 <= j < s.len() && (#[trigger] s[j]).0 == other {
            let j = choose|j: int| 0 <= j < s.len() && (#[trigger] s[j]).0 == other;
            lemma_lookup_sorted(s, other, j);
            if i < s.len() && s[i].0 == k {
                assert(j != i);
                assert(r[j] == s[j]);
                lemma_lookup_sorted(r, other, j);
            } else {
                if j < i {
                    assert(r[j] == s[j]);
                    lemma_lookup_sorted(r, other, j);
                } else {
                    assert(r[j + 1] == s[j]);
                    lemma_lookup_sorted(r, other, j + 1);
                }
            }
        } else {
            lemma_lookup_absent(s, other);
            assert forall|a: int| 0 <= a < r.len() implies (#[trigger] r[a]).0 != other by {
                if i < s.len() && s[i].0 == k {
                    if a != i {
                        assert(r[a] == s[a]);
                    }
                } else {
                    if a < i {
                        assert(r[a] == s[a]);
                    } else if a > i {
                        assert(r[a] == s[a - 1]);
                    }
                }
            }
            lemma_lookup_absent(r, other);
        }
    }
}

/// Input bindings of a profile: console input id → W3C descriptor, kept in
/// ascending key order with each key once.
pub struct Bindings {
    entries: Vec<(String, String)>,
}

impl Bindings {
    /// The entries in iteration order, as text.
    pub closed spec fn pairs(&self) -> Seq<(Seq<char>, Seq<char>)> {
        self.entries@.map_values(|e: (String, String)| (e.0@, e.1@))
    }

    pub open spec fn wf(&self) -> bool {
        sorted_keys(self.pairs())
    }

    pub fn new() -> (r: Self)
        ensures
            r.pairs() == Seq::<(Seq<char>, Seq<char>)>::empty(),
            r.wf(),
    {
        let r = Bindings { entries: Vec::new() };
        assert(r.pairs() =~= Seq::<(Seq<char>, Seq<char>)>::empty());
        r
    }

    pub fn len(&self) -> (n: usize)
        ensures
            n == self.pairs().len(),
    {
        self.entries.len()
    }

    /// The `i`-th entry in iteration order.
    pub fn entry(&self, i: usize) -> (e: &(String, String))
        requires
            i < self.pairs().len(),
        ensures
            (e.0@, e.1@) == self.pairs()[i as int],
    {
        &self.entries[i]
    }

    /// `BTreeMap::insert`: replace the value under `key`, or add the entry in
    /// key order.
    pub fn insert(&mut self, key: String, value: String)
        requires
            old(self).wf(),
        ensures
            final(self).wf(),
            final(self).pairs() == sorted_insert(old(self).pairs(), key@, value@),
    {
        let ghost s = self.pairs();
        let kc = chars_of(key.as_str());
        let mut i: usize = 0;
        proof {
            assert(s.skip(0) =~= s);
        }
        while i < self.entries.len() && self.key_less(i, &kc)
            invariant
                i <= self.entries.len(),
                s == self.pairs(),
                kc@ == key@,
                leading_lt(s, key@) == i + leading_lt(s.skip(i as int), key@),
            decreases self.entries.len() - i,
        {
            proof {
                assert(s.skip(i as int).drop_first() =~= s.skip(i + 1));
            }
            i += 1;
        }
        proof {
            if i < s.len() {
                assert(!lex_lt(s.skip(i as int)[0].0, key@));
            } else {
                assert(s.skip(i as int).len() == 0);
            }
            assert(leading_lt(s, key@) == i);
            lemma_sorted_insert(s, key@, value@);
        }
        if i < self.entries.len() {
            let ec = chars_of(self.entries[i].0.as_str());
            if eq_vec(&ec, &kc) {
                self.entries.set(i, (key, value));
                proof {
                    assert(self.pairs() =~= sorted_insert(s, key@, value@));
                }
                return;
            }
        }
        self.entries.insert(i, (key, value));
        proof {
            assert(self.pairs() =~= sorted_insert(s, key@, value@));
        }
    }

    fn key_less(&self, i: usize, k: &Vec<char>) -> (r: bool)
        requires
            i < self.pairs().len(),
        ensures
            r == lex_lt(self.pairs()[i as int].0, k@),
    {
        let ec = chars_of(self.entries[i].0.as_str());
        lex_less(&ec, k)
    }

    /// `BTreeMap::get`.
    pub fn get(&self, key: &str) -> (r: Option<&String>)
        ensures
            match r {
                Some(v) => lookup(self.pairs(), key@) == Some(v@),
                None => lookup(self.pairs(), key@) is None,
            },
    {
        let ghost s = self.pairs();
        let kc = chars_of(key);
        let mut i: usize = 0;
        proof {
            assert(s.skip(0) =~= s);
        }
        while i < self.entries.len()
            invariant
                i <= self.entries.len(),
                s == self.pairs(),
                kc@ == key@,
                lookup(s, key@) == lookup(s.skip(i as int), key@),
            decreases self.entries.len() - i,
        {
            let ec = chars_of(self.entries[i].0.as_str());
            if eq_vec(&ec, &kc) {
                return Some(&self.entries[i].1);
            }
            proof {
                assert(s.skip(i as int).drop_first() =~= s.skip(i + 1));
            }
            i += 1;
        }
        None
    }

    /// `BTreeMap::contains_key`.
    pub fn contains_key(&self, key: &str) -> (b: bool)
        ensures
            b == (lookup(self.pairs(), key@) is Some),
    {
        self.get(key).is_some()
    }
}

/// `a < b` in the key order.
pub fn lex_less(a: &Vec<char>, b: &Vec<char>) -> (r: bool)
    ensures
        r == lex_lt(a@, b@),
{
    let mut i: usize = 0;
    proof {
        assert(a@.skip(0) =~= a@);
        assert(b@.skip(0) =~= b@);
    }
    while i < a.len() && i < b.len() && a[i] == b[i]
        invariant
            i <= a.len(),
            i <= b.len(),
            lex_lt(a@, b@) == lex_lt(a@.skip(i as int), b@.skip(i as int)),
        decreases a.len() - i,
    {
        proof {
            assert(a@.skip(i as int).drop_first() =~= a@.skip(i + 1));
            assert(b@.skip(i as int).drop_first() =~= b@.skip(i + 1));
        }
        i += 1;
    }
    if i == a.len() {
        i < b.len()
    } else if i == b.len() {
        false
    } else {
        a[i] < b[i]
    }
}

} // verus!
