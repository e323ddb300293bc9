//! Configuration: saved places, saved routes and settings.
//!
//! Saved places and routes are kept by name in name order, the order the
//! configuration file lists them in, and looked up without regard to the case
//! of ASCII letters so that `ruter Home` and `ruter home` behave the same.

use vstd::prelude::*;
use crate::text::{chars_of, views};

verus! {

/// Code-point order on names, which for UTF-8 text is the byte order the
/// configuration's maps sort by.
pub open spec fn key_lt(a: Seq<char>, b: Seq<char>) -> bool
    decreases a.len(),
{
    if b.len() == 0 {
        false
    } else if a.len() == 0 {
        true
    } else if a[0] != b[0] {
        (a[0] as int) < (b[0] as int)
    } else {
        key_lt(a.drop_first(), b.drop_first())
    }
}

/// No name sorts before itself.
pub proof fn lemma_key_lt_irreflexive(a: Seq<char>)
    ensures
        !key_lt(a, a),
    decreases a.len(),
{
    if a.len() > 0 {
        lemma_key_lt_irreflexive(a.drop_first());
    }
}

/// Two different names are ordered one way or the other.
pub proof fn lemma_key_lt_total(a: Seq<char>, b: Seq<char>)
    ensures
        a != b ==> key_lt(a, b) || key_lt(b, a),
        !(key_lt(a, b) && key_lt(b, a)),
    decreases a.len(),
{
    if a.len() > 0 && b.len() > 0 {
        if a[0] == b[0] {
            lemma_key_lt_total(a.drop_first(), b.drop_first());
            if a != b {
                assert(a.drop_first() != b.drop_first()) by {
                    if a.drop_first() == b.drop_first() {
                        assert(a =~= seq![a[0]] + a.drop_first());
                        assert(b =~= seq![b[0]] + b.drop_first());
                    }
                }
            }
        } else {
            assert(a[0] as int != b[0] as int);
        }
    } else if a.len() == 0 && b.len() == 0 {
        assert(a =~= b);
    }
}

/// The order on names is transitive.
pub proof fn lemma_key_lt_transitive(a: Seq<char>, b: Seq<char>, c: Seq<char>)
    requires
        key_lt(a, b),
        key_lt(b, c),
    ensures
        key_lt(a, c),
    decreases a.len(),
{
    if a.len() > 0 && b.len() > 0 && c.len() > 0 && a[0] == b[0] && b[0] == c[0] {
        lemma_key_lt_transitive(a.drop_first(), b.drop_first(), c.drop_first());
    }
}

/// How two names compare.
#[derive(Clone, Copy, Debug, PartialEq, Eq, Structural)]
pub enum Precedes {
    Before,
    Same,
    After,
}

/// Compare two names in code-point order.
pub fn key_order(a: &str, b: &str) -> (out: Precedes)
    ensures
        (out == Precedes::Before) == key_lt(a@, b@),
        (out == Precedes::Same) == (a@ == b@),
        (out == Precedes::After) == key_lt(b@, a@),
{
    let x = chars_of(a);
    let y = chars_of(b);
    let mut i: usize = 0;
    assert(x@.skip(0) =~= x@);
    assert(y@.skip(0) =~= y@);
    proof {
        lemma_key_lt_total(a@, b@);
        lemma_key_lt_irreflexive(a@);
    }
    while i < x.len() && i < y.len() && x[i] == y[i]
        invariant
            x@ == a@,
            y@ == b@,
            i <= x.len(),
            i <= y.len(),
            x@.take(i as int) == y@.take(i as int),
            key_lt(a@, b@) == key_lt(x@.skip(i as int), y@.skip(i as int)),
            key_lt(b@, a@) == key_lt(y@.skip(i as int), x@.skip(i as int)),
        decreases x.len() - i,
    {
        assert(x@.skip(i as int).drop_first() =~= x@.skip(i + 1));
        assert(y@.skip(i as int).drop_first() =~= y@.skip(i + 1));
        assert(x@.take(i + 1) =~= x@.take(i as int).push(x@[i as int]));
        assert(y@.take(i + 1) =~= y@.take(i as int).push(y@[i as int]));
        i += 1;
    }
    if i == x.len() && i == y.len() {
        assert(x@ =~= x@.take(i as int));
        assert(y@ =~= y@.take(i as int));
        Precedes::Same
    } else if i == x.len() {
        assert(a@ != b@) by {
            assert(y@.len() > x@.len());
        }
        Precedes::Before
    } else if i == y.len() {
        assert(a@ != b@) by {
            assert(y@.len() < x@.len());
        }
        Precedes::After
    } else {
        assert(a@ != b@) by {
            assert(x@[i as int] != y@[i as int]);
        }
        if x[i] < y[i] {
            Precedes::Before
        } else {
            Precedes::After
        }
    }
}

/// ASCII upper-case letters folded to lower case; every other character as it is.
pub open spec fn ascii_lower(c: char) -> u32 {
    let x = c as u32;
    if 65 <= x <= 90 {
        (x + 32) as u32
    } else {
        x
    }
}

/// Equal but for the case of ASCII letters, as `str::eq_ignore_ascii_case`
/// judges two strings.
pub open spec fn eq_ignore_ascii_case(a: Seq<char>, b: Seq<char>) -> bool {
    a.len() == b.len() && forall|i: int| 0 <= i < a.len() ==> ascii_lower(#[trigger] a[i]) == ascii_lower(b[i])
}

/// Whether two strings are equal but for the case of ASCII letters.
pub fn eq_ignore_case(a: &str, b: &str) -> (r: bool)
    ensures
        r == eq_ignore_ascii_case(a@, b@),
{
    let x = chars_of(a);
    let y = chars_of(b);
    if x.len() != y.len() {
        return false;
    }
    let mut i: usize = 0;
    while i < x.len()
        invariant
            x@ == a@,
            y@ == b@,
            x.len() == y.len(),
            i <= x.len(),
            forall|j: int| 0 <= j < i ==> ascii_lower(#[trigger] x@[j]) == ascii_lower(y@[j]),
        decreases x.len() - i,
    {
        let p = x[i] as u32;
        let q = y[i] as u32;
        let lp = if 65 <= p && p <= 90 { p + 32 } else { p };
        let lq = if 65 <= q && q <= 90 { q + 32 } else { q };
        if lp != lq {
            return false;
        }
        i += 1;
    }
    true
}

/// Strictly increasing names.
pub open spec fn keys_sorted(keys: Seq<Seq<char>>) -> bool {
    forall|i: int, j: int| 0 <= i < j < keys.len() ==> key_lt(#[trigger] keys[i], #[trigger] keys[j])
}

/// The names of named entries.
pub open spec fn entry_keys<V>(s: Seq<(Seq<char>, V)>) -> Seq<Seq<char>> {
    s.map_values(|e: (Seq<char>, V)| e.0)
}

/// Where the entry named `k` stands, if there is one.
pub open spec fn spec_find<V>(s: Seq<(Seq<char>, V)>, k: Seq<char>) -> Option<int> {
    if exists|i: int| 0 <= i < s.len() && s[i].0 == k {
        Some(choose|i: int| 0 <= i < s.len() && s[i].0 == k)
    } else {
        None
    }
}

/// The value named exactly `k`.
pub open spec fn spec_get<V>(s: Seq<(Seq<char>, V)>, k: Seq<char>) -> Option<V> {
    match spec_find(s, k) {
        Some(i) => Some(s[i].1),
        None => None,
    }
}

/// Where `k` belongs: before the first name that does not sort before it.
pub open spec fn insert_position<V>(s: Seq<(Seq<char>, V)>, k: Seq<char>) -> int
    decreases s.len(),
{
    if s.len() == 0 {
        0
    } else if !key_lt(s[0].0, k) {
        0
    } else {
        1 + insert_position(s.drop_first(), k)
    }
}

/// The entries with `v` saved under `k`: replacing the value already there,
/// or added in name order.
pub open spec fn spec_insert<V>(s: Seq<(Seq<char>, V)>, k: Seq<char>, v: V) -> Seq<(Seq<char>, V)> {
    let p = insert_position(s, k);
    if p < s.len() && s[p].0 == k {
        s.update(p, (k, v))
    } else {
        s.insert(p, (k, v))
    }
}

/// The entries without the one named `k`.
pub open spec fn spec_remove<V>(s: Seq<(Seq<char>, V)>, k: Seq<char>) -> Seq<(Seq<char>, V)> {
    match spec_find(s, k) {
        Some(i) => s.remove(i),
        None => s,
    }
}

/// The entry found for a name: the one named exactly so, or else the first in
/// name order that matches without regard to ASCII case.
pub open spec fn spec_lookup<V>(s: Seq<(Seq<char>, V)>, k: Seq<char>) -> Option<int> {
    match spec_find(s, k) {
        Some(i) => Some(i),
        None => if exists|i: int| 0 <= i < s.len() && eq_ignore_ascii_case(s[i].0, k) {
            Some(
                choose|i: int|
                    0 <= i < s.len() && eq_ignore_ascii_case(s[i].0, k) && forall|j: int|
                        0 <= j < i ==> !eq_ignore_ascii_case(#[trigger] s[j].0, k),
            )
        } else {
            None
        },
    }
}

/// Values saved by name, kept in name order.
#[derive(Debug)]
pub struct NameMap<V> {
    entries: Vec<(String, V)>,
}

impl<V> View for NameMap<V> {
    type V = Seq<(Seq<char>, V)>;

    closed spec fn view(&self) -> Seq<(Seq<char>, V)> {
        self.entries@.map_values(|e: (String, V)| (e.0@, e.1))
    }
}

impl<V> NameMap<V> {
    #[verifier::type_invariant]
    closed spec fn sorted(self) -> bool {
        keys_sorted(entry_keys(self@))
    }

    /// The names are in strictly increasing order.
    pub fn names_sorted(&self)
        ensures
            keys_sorted(entry_keys(self@)),
    {
        proof {
            use_type_invariant(self);
        }
    }

    /// No names.
    pub fn new() -> (out: NameMap<V>)
        ensures
            out@ == Seq::<(Seq<char>, V)>::empty(),
    {
        let out = NameMap { entries: Vec::new() };
        assert(out@ =~= Seq::<(Seq<char>, V)>::empty());
        out
    }

    pub fn len(&self) -> (n: usize)
        ensures
            n == self@.len(),
    {
        self.entries.len()
    }

    pub fn is_empty(&self) -> (r: bool)
        ensures
            r == (self@.len() == 0),
    {
        self.entries.len() == 0
    }

    /// The `i`-th entry in name order.
    pub fn entry(&self, i: usize) -> (out: (&str, &V))
        requires
            i < self@.len(),
        ensures
            out.0@ == self@[i as int].0,
            *out.1 == self@[i as int].1,
    {
        let e = &self.entries[i];
        (e.0.as_str(), &e.1)
    }

    /// Where the entry named `name` stands.
    fn find(&self, name: &str) -> (out: Option<usize>)
        ensures
            match (out, spec_find(self@, name@)) {
                (Some(a), Some(b)) => a == b,
                (None, None) => true,
                _ => false,
            },
    {
        proof {
            use_type_invariant(self);
        }
        let mut i: usize = 0;
        while i < self.entries.len()
            invariant
                i <= self.entries.len(),
                keys_sorted(entry_keys(self@)),
                self@.len() == self.entries.len(),
                forall|j: int| 0 <= j < i ==> self@[j].0 != name@,
            decreases self.entries.len() - i,
        {
            if crate::text::str_eq(self.entries[i].0.as_str(), name) {
                proof {
                    assert(self@[i as int].0 == name@);
                    let c = choose|c: int| 0 <= c < self@.len() && self@[c].0 == name@;
                    if c != i {
                        assert(entry_keys(self@)[c] == entry_keys(self@)[i as int]);
                        lemma_key_lt_irreflexive(name@);
                        assert(c > i ==> key_lt(entry_keys(self@)[i as int], entry_keys(self@)[c]));
                    }
                }
                return Some(i);
            }
            i += 1;
        }
        None
    }

    /// The value saved under exactly `name`.
    pub fn get(&self, name: &str) -> (out: Option<&V>)
        ensures
            match (out, spec_get(self@, name@)) {
                (Some(a), Some(b)) => *a == b,
                (None, None) => true,
                _ => false,
            },
    {
        match self.find(name) {
            Some(i) => Some(&self.entries[i].1),
            None => None,
        }
    }

    /// The value saved under `name`, or else under the first name in order
    /// that equals it without regard to ASCII case.
    pub fn lookup(&self, name: &str) -> (out: Option<&V>)
        ensures
            match (out, spec_lookup(self@, name@)) {
                (Some(a), Some(i)) => *a == self@[i].1,
                (None, None) => true,
                _ => false,
            },
    {
        match self.find(name) {
            Some(i) => {
                return Some(&self.entries[i].1);
            },
            None => {},
        }
        let mut i: usize = 0;
        while i < self.entries.len()
            invariant
                i <= self.entries.len(),
                self@.len() == self.entries.len(),
                spec_find(self@, name@) is None,
                forall|j: int| 0 <= j < i ==> !eq_ignore_ascii_case(#[trigger] self@[j].0, name@),
            decreases self.entries.len() - i,
        {
            if eq_ignore_case(self.entries[i].0.as_str(), name) {
                proof {
                    assert(eq_ignore_ascii_case(self@[i as int].0, name@));
                    let c = choose|c: int|
                        0 <= c < self@.len() && eq_ignore_ascii_case(self@[c].0, name@) && forall|j: int|
                            0 <= j < c ==> !eq_ignore_ascii_case(#[trigger] self@[j].0, name@);
                    assert(c == i);
                }
                return Some(&self.entries[i].1);
            }
            i += 1;
        }
        None
    }

    /// Save `value` under `name`, replacing whatever was saved under exactly
    /// that name.
    pub fn insert(&mut self, name: String, value: V)
        ensures
            final(self)@ == spec_insert(old(self)@, name@, value),
    {
        proof {
            use_type_invariant(&*self);
        }
        let ghost s = self@;
        let mut p: usize = 0;
        while p < self.entries.len() && key_order(self.entries[p].0.as_str(), name.as_str())
            == Precedes::Before
            invariant
                p <= self.entries.len(),
                s == self@,
                s.len() == self.entries.len(),
                forall|j: int| 0 <= j < p ==> key_lt(#[trigger] s[j].0, name@),
            decreases self.entries.len() - p,
        {
            p += 1;
        }
        proof {
            lemma_insert_position_is(s, name@, p as int);
        }
        let mut entries: Vec<(String, V)> = Vec::new();
        std::mem::swap(&mut entries, &mut self.entries);
        let same = p < entries.len() && key_order(entries[p].0.as_str(), name.as_str())
            == Precedes::Same;
        if same {
            entries.set(p, (name, value));
            proof {
                assert(entries@.map_values(|e: (String, V)| (e.0@, e.1)) =~= s.update(
                    p as int,
                    (name@, value),
                ));
                assert(entry_keys(s.update(p as int, (name@, value))) =~= entry_keys(s));
            }
        } else {
            proof {
                lemma_insert_keeps_sorted(s, p as int, name@, value);
            }
            entries.insert(p, (name, value));
            proof {
                assert(entries@.map_values(|e: (String, V)| (e.0@, e.1)) =~= s.insert(
                    p as int,
                    (name@, value),
                ));
            }
        }
        self.entries = entries;
    }

    /// Forget the value saved under exactly `name`, handing it back.
    pub fn remove(&mut self, name: &str) -> (out: Option<V>)
        ensures
            final(self)@ == spec_remove(old(self)@, name@),
            match (out, spec_get(old(self)@, name@)) {
                (Some(a), Some(b)) => a == b,
                (None, None) => true,
                _ => false,
            },
    {
        proof {
            use_type_invariant(&*self);
        }
        let ghost s = self@;
        match self.find(name) {
            Some(i) => {
                let mut entries: Vec<(String, V)> = Vec::new();
                std::mem::swap(&mut entries, &mut self.entries);
                let e = entries.remove(i);
                proof {
                    assert(entries@.map_values(|e: (String, V)| (e.0@, e.1)) =~= s.remove(i as int));
                    assert(keys_sorted(entry_keys(s.remove(i as int)))) by {
                        assert forall|a: int, b: int|
                            0 <= a < b < s.len() - 1 implies key_lt(
                            #[trigger] entry_keys(s.remove(i as int))[a],
                            #[trigger] entry_keys(s.remove(i as int))[b],
                        ) by {
                            let oa = if a < i { a } else { a + 1 };
                            let ob = if b < i { b } else { b + 1 };
                            assert(entry_keys(s)[oa] == entry_keys(s.remove(i as int))[a]);
                            assert(entry_keys(s)[ob] == entry_keys(s.remove(i as int))[b]);
                        }
                    }
                }
                self.entries = entries;
                Some(e.1)
            },
            None => None,
        }
    }
}

/// Adding a name where it belongs keeps the names in order.
proof fn lemma_insert_keeps_sorted<V>(s: Seq<(Seq<char>, V)>, p: int, k: Seq<char>, v: V)
    requires
        keys_sorted(entry_keys(s)),
        0 <= p <= s.len(),
        forall|j: int| 0 <= j < p ==> key_lt(#[trigger] s[j].0, k),
        p < s.len() ==> !key_lt(s[p].0, k) && s[p].0 != k,
    ensures
        keys_sorted(entry_keys(s.insert(p, (k, v)))),
{
    let t = s.insert(p, (k, v));
    if p < s.len() {
        lemma_key_lt_total(s[p].0, k);
    }
    assert forall|a: int, b: int| 0 <= a < b < t.len() implies key_lt(
        #[trigger] entry_keys(t)[a],
        #[trigger] entry_keys(t)[b],
    ) by {
        if a < p && b < p {
            assert(key_lt(entry_keys(s)[a], entry_keys(s)[b]));
        } else if a < p && b == p {
        } else if a < p {
            assert(key_lt(entry_keys(s)[a], entry_keys(s)[b - 1]));
        } else if a == p {
            if b - 1 > p {
                assert(key_lt(entry_keys(s)[p], entry_keys(s)[b - 1]));
                lemma_key_lt_transitive(k, s[p].0, s[b - 1].0);
            }
        } else {
            assert(key_lt(entry_keys(s)[a - 1], entry_keys(s)[b - 1]));
        }
    }
}

} // verus!

verus! {

/// Where a name belongs: every name before it sorts before it, and the name
/// there, if any, does not.
proof fn lemma_insert_position<V>(s: Seq<(Seq<char>, V)>, k: Seq<char>)
    ensures
        0 <= insert_position(s, k) <= s.len(),
        forall|j: int| 0 <= j < insert_position(s, k) ==> key_lt(#[trigger] s[j].0, k),
        insert_position(s, k) < s.len() ==> !key_lt(s[insert_position(s, k)].0, k),
    decreases s.len(),
{
    if s.len() > 0 && key_lt(s[0].0, k) {
        lemma_insert_position(s.drop_first(), k);
        assert forall|j: int| 0 <= j < insert_position(s, k) implies key_lt(#[trigger] s[j].0, k) by {
            if j > 0 {
                assert(s[j] == s.drop_first()[j - 1]);
            }
        }
    }
}

/// The first position whose name does not sort before `k` is where `k` belongs.
proof fn lemma_insert_position_is<V>(s: Seq<(Seq<char>, V)>, k: Seq<char>, p: int)
    requires
        0 <= p <= s.len(),
        forall|j: int| 0 <= j < p ==> key_lt(#[trigger] s[j].0, k),
        p < s.len() ==> !key_lt(s[p].0, k),
    ensures
        insert_position(s, k) == p,
    decreases s.len(),
{
    if s.len() > 0 && p > 0 {
        assert(key_lt(s[0].0, k));
        assert forall|j: int| 0 <= j < p - 1 implies key_lt(#[trigger] s.drop_first()[j].0, k) by {
            assert(s.drop_first()[j] == s[j + 1]);
        }
        lemma_insert_position_is(s.drop_first(), k, p - 1);
    }
}

/// In a list with strictly increasing names, each name is found where it stands.
proof fn lemma_find_in_sorted<V>(s: Seq<(Seq<char>, V)>, i: int)
    requires
        keys_sorted(entry_keys(s)),
        0 <= i < s.len(),
    ensures
        spec_find(s, s[i].0) == Some(i),
{
    let c = choose|c: int| 0 <= c < s.len() && s[c].0 == s[i].0;
    if c != i {
        lemma_key_lt_irreflexive(s[i].0);
        if c < i {
            assert(key_lt(entry_keys(s)[c], entry_keys(s)[i]));
        } else {
            assert(key_lt(entry_keys(s)[i], entry_keys(s)[c]));
        }
    }
}

/// Saving under a name keeps the names strictly increasing.
pub proof fn law_insert_keeps_order<V>(s: Seq<(Seq<char>, V)>, k: Seq<char>, v: V)
    requires
        keys_sorted(entry_keys(s)),
    ensures
        keys_sorted(entry_keys(spec_insert(s, k, v))),
{
    lemma_insert_position(s, k);
    let p = insert_position(s, k);
    if p < s.len() && s[p].0 == k {
        assert(entry_keys(s.update(p, (k, v))) =~= entry_keys(s));
    } else {
        lemma_insert_keeps_sorted(s, p, k, v);
    }
}

/// What was just saved under a name is what that name gives back.
pub proof fn law_get_after_insert<V>(s: Seq<(Seq<char>, V)>, k: Seq<char>, v: V)
    requires
        keys_sorted(entry_keys(s)),
    ensures
        spec_get(spec_insert(s, k, v), k) == Some(v),
{
    lemma_insert_position(s, k);
    law_insert_keeps_order(s, k, v);
    let p = insert_position(s, k);
    let t = spec_insert(s, k, v);
    assert(t[p] == (k, v));
    lemma_find_in_sorted(t, p);
}

/// Saving under one name leaves what every other name gives back unchanged.
pub proof fn law_insert_keeps_other_names<V>(s: Seq<(Seq<char>, V)>, k: Seq<char>, v: V, other: Seq<char>)
    requires
        keys_sorted(entry_keys(s)),
        other != k,
    ensures
        spec_get(spec_insert(s, k, v), other) == spec_get(s, other),
{
    lemma_insert_position(s, k);
    law_insert_keeps_order(s, k, v);
    let p = insert_position(s, k);
    let t = spec_insert(s, k, v);
    let replaced = p < s.len() && s[p].0 == k;
    if exists|i: int| 0 <= i < s.len() && s[i].0 == other {
        let i = choose|i: int| 0 <= i < s.len() && s[i].0 == other;
        lemma_find_in_sorted(s, i);
        let j = if replaced || i < p { i } else { i + 1 };
        assert(t[j] == s[i]);
        lemma_find_in_sorted(t, j);
    } else {
        assert forall|j: int| 0 <= j < t.len() implies t[j].0 != other by {
            if !replaced && j > p {
                assert(t[j] == s[j - 1]);
            } else if j != p {
                assert(t[j] == s[j]);
            }
        }
    }
}

/// After forgetting a name, it gives back nothing.
pub proof fn law_get_after_remove<V>(s: Seq<(Seq<char>, V)>, k: Seq<char>)
    requires
        keys_sorted(entry_keys(s)),
    ensures
        spec_get(spec_remove(s, k), k) is None,
{
    match spec_find(s, k) {
        Some(i) => {
            lemma_find_in_sorted(s, i);
            let t = s.remove(i);
            assert forall|j: int| 0 <= j < t.len() implies t[j].0 != k by {
                let o = if j < i { j } else { j + 1 };
                assert(t[j] == s[o]);
                lemma_find_in_sorted(s, o);
            }
        },
        None => {},
    }
}

/// Forgetting one name leaves what every other name gives back unchanged.
pub proof fn law_remove_keeps_other_names<V>(s: Seq<(Seq<char>, V)>, k: Seq<char>, other: Seq<char>)
    requires
        keys_sorted(entry_keys(s)),
        other != k,
    ensures
        spec_get(spec_remove(s, k), other) == spec_get(s, other),
{
    match spec_find(s, k) {
        Some(i) => {
            lemma_find_in_sorted(s, i);
            let t = s.remove(i);
            assert(keys_sorted(entry_keys(t))) by {
                assert forall|a: int, b: int| 0 <= a < b < t.len() implies key_lt(
                    #[trigger] entry_keys(t)[a],
                    #[trigger] entry_keys(t)[b],
                ) by {
                    let oa = if a < i { a } else { a + 1 };
                    let ob = if b < i { b } else { b + 1 };
                    assert(entry_keys(s)[oa] == entry_keys(t)[a]);
                    assert(entry_keys(s)[ob] == entry_keys(t)[b]);
                }
            }
            if exists|j: int| 0 <= j < s.len() && s[j].0 == other {
                let j = choose|j: int| 0 <= j < s.len() && s[j].0 == other;
                lemma_find_in_sorted(s, j);
                let o = if j < i { j } else { j - 1 };
                assert(t[o] == s[j]);
                lemma_find_in_sorted(t, o);
            } else {
                assert forall|j: int| 0 <= j < t.len() implies t[j].0 != other by {
                    let o = if j < i { j } else { j + 1 };
                    assert(t[j] == s[o]);
                }
            }
        },
        None => {},
    }
}

/// Equality without regard to ASCII case is reflexive, symmetric and transitive.
proof fn lemma_ignore_case_equivalence(x: Seq<char>, y: Seq<char>, z: Seq<char>)
    ensures
        eq_ignore_ascii_case(x, x),
        eq_ignore_ascii_case(x, y) ==> eq_ignore_ascii_case(y, x),
        eq_ignore_ascii_case(x, y) && eq_ignore_ascii_case(y, z) ==> eq_ignore_ascii_case(x, z),
{
    if eq_ignore_ascii_case(x, y) && eq_ignore_ascii_case(y, z) {
        assert forall|i: int| 0 <= i < x.len() implies ascii_lower(#[trigger] x[i]) == ascii_lower(z[i]) by {
            assert(ascii_lower(x[i]) == ascii_lower(y[i]));
            assert(ascii_lower(y[i]) == ascii_lower(z[i]));
        }
    }
    if eq_ignore_ascii_case(x, y) {
        assert forall|i: int| 0 <= i < y.len() implies ascii_lower(#[trigger] y[i]) == ascii_lower(x[i]) by {
            assert(ascii_lower(x[i]) == ascii_lower(y[i]));
        }
    }
}

/// A name is found exactly when it is saved or one of the saved names equals
/// it without regard to ASCII case.
pub proof fn law_lookup_finds_case_variants<V>(s: Seq<(Seq<char>, V)>, k: Seq<char>)
    ensures
        spec_lookup(s, k) is Some <==> exists|i: int|
            0 <= i < s.len() && eq_ignore_ascii_case(#[trigger] s[i].0, k),
        spec_get(s, k) is Some ==> spec_lookup(s, k) == spec_find(s, k),
{
    if exists|i: int| 0 <= i < s.len() && s[i].0 == k {
        let c = choose|c: int| 0 <= c < s.len() && s[c].0 == k;
        assert(eq_ignore_ascii_case(s[c].0, k));
    }
}

/// Whether a name is found does not depend on the case of its ASCII letters.
pub proof fn law_lookup_ignores_ascii_case<V>(s: Seq<(Seq<char>, V)>, a: Seq<char>, b: Seq<char>)
    requires
        eq_ignore_ascii_case(a, b),
    ensures
        spec_lookup(s, a) is Some <==> spec_lookup(s, b) is Some,
{
    law_lookup_finds_case_variants(s, a);
    law_lookup_finds_case_variants(s, b);
    if exists|i: int| 0 <= i < s.len() && eq_ignore_ascii_case(#[trigger] s[i].0, a) {
        let i = choose|i: int| 0 <= i < s.len() && eq_ignore_ascii_case(#[trigger] s[i].0, a);
        lemma_ignore_case_equivalence(s[i].0, a, b);
    }
    if exists|i: int| 0 <= i < s.len() && eq_ignore_ascii_case(#[trigger] s[i].0, b) {
        let i = choose|i: int| 0 <= i < s.len() && eq_ignore_ascii_case(#[trigger] s[i].0, b);
        lemma_ignore_case_equivalence(a, b, s[i].0);
        lemma_ignore_case_equivalence(s[i].0, b, a);
    }
}

} // verus!

verus! {

/// A saved location the user can refer to by name, e.g. `home`.
#[derive(Clone, Debug)]
pub struct Place {
    /// Human-readable name shown in output, e.g. "Hjemme".
    pub label: String,
    /// Latitude, as the IEEE-754 bits of its `f64`.
    pub lat_bits: u64,
    /// Longitude, as the IEEE-754 bits of its `f64`.
    pub lon_bits: u64,
}

/// A stop a route is required to pass through, in order.
///
/// Stored as the NSR id rather than the text the user typed: a stop name can
/// match several stops nationally, so re-resolving it on every run would
/// eventually route the user somewhere else entirely.
#[derive(Clone, Debug)]
pub struct Waypoint {
    /// Human-readable name shown in output, e.g. "Smestad, Oslo".
    pub label: String,
    /// e.g. "NSR:StopPlace:58273".
    pub id: String,
}

/// A named journey with fixed endpoints and waypoints.
#[derive(Clone, Debug)]
pub struct Route {
    /// Shown by `ruter route list`, e.g. "Brekkelia → Stubberud".
    pub label: String,
    /// `None` means "start from wherever I am now".
    pub from: Option<Place>,
    pub to: Place,
    pub via: Vec<Waypoint>,
}

/// The settings, saved places and saved routes.
#[derive(Debug)]
pub struct Config {
    /// Sent as the mandatory `ET-Client-Name` header on every Entur request.
    pub client_name: String,
    /// Used when `ruter` is invoked with no destination.
    pub default_destination: Option<String>,
    /// Last-resort origin when every other position source fails.
    pub default_origin: Option<String>,
    pub num_results: usize,
    /// Minutes. Caps the walk to the first stop and from the last one.
    pub max_walk_minutes: u32,
    pub modes: Vec<String>,
    /// Refresh interval for `--watch`, kept generous: this is a free open API.
    pub watch_interval_secs: u64,
    pub places: NameMap<Place>,
    pub routes: NameMap<Route>,
}

/// The default client name.
pub open spec fn spec_default_client_name() -> Seq<char> {
    "ruter-cli"@
}

/// The default transport modes.
pub open spec fn spec_default_modes() -> Seq<Seq<char>> {
    seq!["bus"@, "tram"@, "metro"@, "rail"@, "water"@]
}

pub fn default_client_name() -> (out: String)
    ensures
        out@ == spec_default_client_name(),
{
    String::from_str("ruter-cli")
}

pub fn default_num_results() -> (out: usize)
    ensures
        out == 5,
{
    5
}

pub fn default_max_walk_minutes() -> (out: u32)
    ensures
        out == 15,
{
    15
}

pub fn default_watch_interval() -> (out: u64)
    ensures
        out == 30,
{
    30
}

pub fn default_modes() -> (out: Vec<String>)
    ensures
        views(out@) == spec_default_modes(),
{
    let out = vec![
        String::from_str("bus"),
        String::from_str("tram"),
        String::from_str("metro"),
        String::from_str("rail"),
        String::from_str("water"),
    ];
    assert(views(out@) =~= spec_default_modes());
    out
}

impl Config {
    /// Every setting at its default, and nothing saved.
    pub open spec fn is_default(self) -> bool {
        &&& self.client_name@ == spec_default_client_name()
        &&& self.default_destination is None
        &&& self.default_origin is None
        &&& self.num_results == 5
        &&& self.max_walk_minutes == 15
        &&& views(self.modes@) == spec_default_modes()
        &&& self.watch_interval_secs == 30
        &&& self.places@.len() == 0
        &&& self.routes@.len() == 0
    }

    /// Case-insensitive lookup so `ruter Home` and `ruter home` behave the same.
    pub fn place(&self, name: &str) -> (out: Option<&Place>)
        ensures
            match (out, spec_lookup(self.places@, name@)) {
                (Some(a), Some(i)) => *a == self.places@[i].1,
                (None, None) => true,
                _ => false,
            },
    {
        self.places.lookup(name)
    }

    /// Case-insensitive lookup of a saved route.
    pub fn route(&self, name: &str) -> (out: Option<&Route>)
        ensures
            match (out, spec_lookup(self.routes@, name@)) {
                (Some(a), Some(i)) => *a == self.routes@[i].1,
                (None, None) => true,
                _ => false,
            },
    {
        self.routes.lookup(name)
    }
}

impl Default for Config {
    fn default() -> (out: Config)
        ensures
            out.is_default(),
    {
        Config {
            client_name: default_client_name(),
            default_destination: None,
            default_origin: None,
            num_results: default_num_results(),
            max_walk_minutes: default_max_walk_minutes(),
            modes: default_modes(),
            watch_interval_secs: default_watch_interval(),
            places: NameMap::new(),
            routes: NameMap::new(),
        }
    }
}

} // verus!
