//! A catalog of long-lived entries kept by name.
//!
//! Entries stay in ascending order of their names, so a name occurs at most
//! once and a listing always comes out in the same order. The mathematical
//! model of a catalog is the map from names to values.

use vstd::prelude::*;
use vstd::string::*;
use crate::text::{chars_of, same_text};

verus! {

/// Lexicographic order on texts, character by character by code point; a
/// proper prefix comes before the longer text.
pub open spec fn text_less(a: Seq<char>, b: Seq<char>) -> bool
    decreases a.len(),
{
    if b.len() == 0 {
        false
    } else if a.len() == 0 {
        true
    } else if a[0] != b[0] {
        (a[0] as int) < (b[0] as int)
    } else {
        text_less(a.drop_first(), b.drop_first())
    }
}

/// No text comes before itself.
pub proof fn lemma_text_less_irreflexive(a: Seq<char>)
    ensures
        !text_less(a, a),
    decreases a.len(),
{
    if a.len() > 0 {
        lemma_text_less_irreflexive(a.drop_first());
    }
}

/// The order is transitive.
pub proof fn lemma_text_less_transitive(a: Seq<char>, b: Seq<char>, c: Seq<char>)
    requires
        text_less(a, b),
        text_less(b, c),
    ensures
        text_less(a, c),
    decreases a.len(),
{
    if a.len() > 0 && b.len() > 0 && c.len() > 0 {
        if a[0] == b[0] && b[0] == c[0] {
            lemma_text_less_transitive(a.drop_first(), b.drop_first(), c.drop_first());
        }
    }
}

/// Of two different texts one comes before the other.
pub proof fn lemma_text_less_total(a: Seq<char>, b: Seq<char>)
    ensures
        a == b || text_less(a, b) || text_less(b, a),
    decreases a.len(),
{
    if a.len() == 0 || b.len() == 0 {
        if a.len() == 0 && b.len() == 0 {
            assert(a =~= b);
        }
    } else if a[0] == b[0] {
        lemma_text_less_total(a.drop_first(), b.drop_first());
        if a.drop_first() == b.drop_first() {
            assert(a =~= seq![a[0]] + a.drop_first());
            assert(b =~= seq![b[0]] + b.drop_first());
        }
    }
}

/// Past a common beginning, the order of two texts is the order of what
/// follows it.
pub proof fn lemma_text_less_skips_common(a: Seq<char>, b: Seq<char>, n: int)
    requires
        0 <= n <= a.len(),
        n <= b.len(),
        forall|k: int| 0 <= k < n ==> a[k] == b[k],
    ensures
        text_less(a, b) == text_less(a.skip(n), b.skip(n)),
    decreases n,
{
    if n == 0 {
        assert(a.skip(0) =~= a);
        assert(b.skip(0) =~= b);
    } else {
        let a1 = a.drop_first();
        let b1 = b.drop_first();
        assert forall|k: int| 0 <= k < n - 1 implies a1[k] == b1[k] by {
            assert(a1[k] == a[k + 1] && b1[k] == b[k + 1]);
        }
        lemma_text_less_skips_common(a1, b1, n - 1);
        assert(a1.skip(n - 1) =~= a.skip(n));
        assert(b1.skip(n - 1) =~= b.skip(n));
    }
}

/// Whether `a` comes before `b`.
pub fn precedes(a: &str, b: &str) -> (r: bool)
    ensures
        r == text_less(a@, b@),
{
    let x = chars_of(a);
    let y = chars_of(b);
    let mut i: usize = 0;
    while i < x.len() && i < y.len()
        invariant
            i <= x.len(),
            i <= y.len(),
            x@ == a@,
            y@ == b@,
            forall|k: int| 0 <= k < i ==> x@[k] == y@[k],
        decreases x.len() - i,
    {
        if x[i] != y[i] {
            proof {
                lemma_text_less_skips_common(x@, y@, i as int);
                assert(x@.skip(i as int)[0] == x@[i as int]);
                assert(y@.skip(i as int)[0] == y@[i as int]);
            }
            return x[i] < y[i];
        }
        i = i + 1;
    }
    proof {
        lemma_text_less_skips_common(x@, y@, i as int);
    }
    i < y.len()
}

/// The names ascend strictly.
pub open spec fn ascending<V>(s: Seq<(Seq<char>, V)>) -> bool {
    forall|i: int, j: int| 0 <= i < j < s.len() ==> text_less(#[trigger] s[i].0, #[trigger] s[j].0)
}

/// Whether some entry of the list bears the name.
pub open spec fn has_name<V>(s: Seq<(Seq<char>, V)>, name: Seq<char>) -> bool {
    exists|i: int| 0 <= i < s.len() && #[trigger] s[i].0 == name
}

/// The position of the entry that bears the name.
pub open spec fn position_of<V>(s: Seq<(Seq<char>, V)>, name: Seq<char>) -> int {
    choose|i: int| 0 <= i < s.len() && #[trigger] s[i].0 == name
}

/// The map from names to values that an association list stands for.
pub open spec fn as_map<V>(s: Seq<(Seq<char>, V)>) -> Map<Seq<char>, V> {
    Map::new(|name: Seq<char>| has_name(s, name), |name: Seq<char>| s[position_of(s, name)].1)
}

/// In an ascending list a name is found at one position only.
pub proof fn lemma_position_unique<V>(s: Seq<(Seq<char>, V)>, i: int, j: int)
    requires
        ascending(s),
        0 <= i < s.len(),
        0 <= j < s.len(),
        s[i].0 == s[j].0,
    ensures
        i == j,
{
    lemma_text_less_irreflexive(s[i].0);
}

/// In an ascending list, the map gives at each entry's name that entry's value.
pub proof fn lemma_map_at<V>(s: Seq<(Seq<char>, V)>, i: int)
    requires
        ascending(s),
        0 <= i < s.len(),
    ensures
        as_map(s).contains_key(s[i].0),
        as_map(s)[s[i].0] == s[i].1,
{
    let name = s[i].0;
    assert(has_name(s, name));
    lemma_position_unique(s, i, position_of(s, name));
}

/// Two ascending lists that stand for the same map are the same list.
pub proof fn lemma_map_determines_list<V>(s: Seq<(Seq<char>, V)>, t: Seq<(Seq<char>, V)>)
    requires
        ascending(s),
        ascending(t),
        as_map(s) == as_map(t),
    ensures
        s == t,
    decreases s.len() + t.len(),
{
    if s.len() == 0 {
        if t.len() > 0 {
            lemma_map_at(t, 0);
            assert(has_name(s, t[0].0));
        }
        assert(s =~= t);
    } else if t.len() == 0 {
        lemma_map_at(s, 0);
        assert(has_name(t, s[0].0));
    } else {
        // The first name of each list is the least name of the common domain.
        lemma_map_at(s, 0);
        lemma_map_at(t, 0);
        assert(has_name(t, s[0].0));
        assert(has_name(s, t[0].0));
        let a = position_of(t, s[0].0);
        let b = position_of(s, t[0].0);
        if a != 0 {
            assert(text_less(t[0].0, t[a].0));
            if b != 0 {
                assert(text_less(s[0].0, s[b].0));
                lemma_text_less_transitive(s[0].0, t[0].0, s[0].0);
            }
            lemma_text_less_irreflexive(s[0].0);
        }
        assert(s[0].0 == t[0].0);
        assert(s[0] == t[0]);
        let s1 = s.drop_first();
        let t1 = t.drop_first();
        assert(ascending(s1)) by {
            assert forall|i: int, j: int| 0 <= i < j < s1.len() implies text_less(
                #[trigger] s1[i].0,
                #[trigger] s1[j].0,
            ) by {
                assert(s1[i] == s[i + 1] && s1[j] == s[j + 1]);
            }
        }
        assert(ascending(t1)) by {
            assert forall|i: int, j: int| 0 <= i < j < t1.len() implies text_less(
                #[trigger] t1[i].0,
                #[trigger] t1[j].0,
            ) by {
                assert(t1[i] == t[i + 1] && t1[j] == t[j + 1]);
            }
        }
        assert(as_map(s1) =~= as_map(t1)) by {
            lemma_tail_map(s);
            lemma_tail_map(t);
        }
        lemma_map_determines_list(s1, t1);
        assert(s =~= seq![s[0]] + s1);
        assert(t =~= seq![t[0]] + t1);
    }
}

/// Dropping the first entry of an ascending list removes its name from the map.
pub proof fn lemma_tail_map<V>(s: Seq<(Seq<char>, V)>)
    requires
        ascending(s),
        s.len() > 0,
    ensures
        as_map(s.drop_first()) == as_map(s).remove(s[0].0),
{
    let t = s.drop_first();
    assert(ascending(t)) by {
        assert forall|i: int, j: int| 0 <= i < j < t.len() implies text_less(
            #[trigger] t[i].0,
            #[trigger] t[j].0,
        ) by {
            assert(t[i] == s[i + 1] && t[j] == s[j + 1]);
        }
    }
    assert forall|name: Seq<char>| as_map(t).contains_key(name) <==> as_map(s).remove(
        s[0].0,
    ).contains_key(name) by {
        if has_name(t, name) {
            let i = position_of(t, name);
            assert(s[i + 1].0 == name);
            assert(text_less(s[0].0, s[i + 1].0));
            lemma_text_less_irreflexive(name);
        }
        if has_name(s, name) && name != s[0].0 {
            let i = position_of(s, name);
            assert(t[i - 1].0 == name);
        }
    }
    assert forall|name: Seq<char>| as_map(t).contains_key(name) implies as_map(t)[name] == as_map(
        s,
    ).remove(s[0].0)[name] by {
        let i = position_of(t, name);
        lemma_map_at(t, i);
        assert(t[i] == s[i + 1]);
        lemma_map_at(s, i + 1);
    }
    assert(as_map(t) =~= as_map(s).remove(s[0].0));
}

/// Putting a new name at its place in an ascending list adds it to the map
/// and keeps the list ascending.
pub proof fn lemma_insert<V>(s: Seq<(Seq<char>, V)>, at: int, name: Seq<char>, value: V)
    requires
        ascending(s),
        0 <= at <= s.len(),
        forall|j: int| 0 <= j < at ==> text_less(#[trigger] s[j].0, name),
        forall|j: int| at <= j < s.len() ==> text_less(name, #[trigger] s[j].0),
    ensures
        ascending(s.insert(at, (name, value))),
        as_map(s.insert(at, (name, value))) == as_map(s).insert(name, value),
        !has_name(s, name),
{
    let t = s.insert(at, (name, value));
    lemma_text_less_irreflexive(name);
    assert forall|i: int, j: int| 0 <= i < j < t.len() implies text_less(
        #[trigger] t[i].0,
        #[trigger] t[j].0,
    ) by {
        if i < at && j > at {
            assert(t[i] == s[i] && t[j] == s[j - 1]);
            lemma_text_less_transitive(s[i].0, name, s[j - 1].0);
        } else if i < at && j < at {
            assert(t[i] == s[i] && t[j] == s[j]);
        } else if i > at {
            assert(t[i] == s[i - 1] && t[j] == s[j - 1]);
        }
    }
    assert forall|other: Seq<char>| as_map(t).contains_key(other) <==> as_map(s).insert(
        name,
        value,
    ).contains_key(other) by {
        if has_name(t, other) {
            let i = position_of(t, other);
            if i < at {
                assert(s[i].0 == other);
            } else if i > at {
                assert(s[i - 1].0 == other);
            }
        }
        if has_name(s, other) {
            let i = position_of(s, other);
            if i < at {
                assert(t[i].0 == other);
            } else {
                assert(t[i + 1].0 == other);
            }
        }
        if other == name {
            assert(t[at].0 == other);
        }
    }
    assert forall|other: Seq<char>| as_map(t).contains_key(other) implies as_map(t)[other]
        == as_map(s).insert(name, value)[other] by {
        let i = position_of(t, other);
        lemma_map_at(t, i);
        if i < at {
            assert(t[i] == s[i]);
            lemma_map_at(s, i);
        } else if i > at {
            assert(t[i] == s[i - 1]);
            lemma_map_at(s, i - 1);
        }
    }
    assert(as_map(t) =~= as_map(s).insert(name, value));
}

/// Giving an entry of an ascending list a new value updates the map at its
/// name and keeps the list ascending.
pub proof fn lemma_update<V>(s: Seq<(Seq<char>, V)>, at: int, value: V)
    requires
        ascending(s),
        0 <= at < s.len(),
    ensures
        ascending(s.update(at, (s[at].0, value))),
        as_map(s.update(at, (s[at].0, value))) == as_map(s).insert(s[at].0, value),
{
    let name = s[at].0;
    let t = s.update(at, (name, value));
    assert(t.len() == s.len());
    assert forall|i: int, j: int| 0 <= i < j < t.len() implies text_less(
        #[trigger] t[i].0,
        #[trigger] t[j].0,
    ) by {
        assert(t[i].0 == s[i].0 && t[j].0 == s[j].0);
    }
    assert forall|other: Seq<char>| as_map(t).contains_key(other) <==> as_map(s).insert(
        name,
        value,
    ).contains_key(other) by {
        if has_name(t, other) {
            let i = position_of(t, other);
            assert(s[i].0 == other);
        }
        if has_name(s, other) {
            let i = position_of(s, other);
            assert(t[i].0 == other);
        }
    }
    assert forall|other: Seq<char>| as_map(t).contains_key(other) implies as_map(t)[other]
        == as_map(s).insert(name, value)[other] by {
        assert(has_name(t, other));
        let i = position_of(t, other);
        lemma_map_at(t, i);
        if i != at {
            assert(t[i] == s[i]);
            lemma_map_at(s, i);
            if other == name {
                lemma_position_unique(s, i, at);
            }
        }
    }
    assert(as_map(t) =~= as_map(s).insert(name, value));
}

/// One entry of a catalog: a value under its name.
pub struct Entry<V> {
    pub key: String,
    pub value: V,
}

/// Entries kept by name, in ascending order of the names.
pub struct Catalog<V> {
    pub entries: Vec<Entry<V>>,
}

impl<V> View for Catalog<V> {
    type V = Seq<(Seq<char>, V)>;

    /// The entries as pairs of name and value, in the order of the listing.
    open spec fn view(&self) -> Seq<(Seq<char>, V)> {
        Seq::new(self.entries@.len(), |i: int| (self.entries@[i].key@, self.entries@[i].value))
    }
}

impl<V> Catalog<V> {
    /// The names ascend strictly, so no name occurs twice.
    pub open spec fn wf(&self) -> bool {
        ascending(self@)
    }

    /// The map from names to values.
    pub open spec fn map(&self) -> Map<Seq<char>, V> {
        as_map(self@)
    }

    /// A catalog without entries.
    pub fn new() -> (c: Self)
        ensures
            c.wf(),
            c@ == Seq::<(Seq<char>, V)>::empty(),
            c.map() == Map::<Seq<char>, V>::empty(),
    {
        let c = Catalog { entries: Vec::new() };
        assert(c@ =~= Seq::<(Seq<char>, V)>::empty());
        assert(c.map() =~= Map::<Seq<char>, V>::empty());
        c
    }

    /// Whether the names ascend strictly.
    pub fn check_wf(&self) -> (ok: bool)
        ensures
            ok == self.wf(),
    {
        let mut i: usize = 1;
        while i < self.entries.len()
            invariant
                1 <= i,
                forall|a: int, b: int|
                    0 <= a < b < i && b < self@.len() ==> text_less(
                        #[trigger] self@[a].0,
                        #[trigger] self@[b].0,
                    ),
            decreases self.entries.len() - i,
        {
            let here = self.entries[i].key.as_str();
            let before = self.entries[i - 1].key.as_str();
            assert(here@ == self@[i as int].0 && before@ == self@[i - 1].0);
            if !precedes(before, here) {
                return false;
            }
            proof {
                assert forall|a: int, b: int| 0 <= a < b < i + 1 && b < self@.len() implies text_less(
                    #[trigger] self@[a].0,
                    #[trigger] self@[b].0,
                ) by {
                    if b == i && a < i - 1 {
                        lemma_text_less_transitive(self@[a].0, self@[i - 1].0, self@[i as int].0);
                    }
                }
            }
            i = i + 1;
        }
        true
    }

    /// Number of entries.
    pub fn len(&self) -> (n: usize)
        ensures
            n == self@.len(),
    {
        self.entries.len()
    }

    /// The name of the entry at a position of the listing.
    pub fn key_at(&self, idx: usize) -> (key: &String)
        requires
            idx < self@.len(),
        ensures
            key@ == self@[idx as int].0,
    {
        &self.entries[idx].key
    }

    /// The value at a position of the listing, if there is one.
    pub fn get(&self, idx: usize) -> (value: Option<&V>)
        ensures
            idx < self@.len() ==> value == Some(&self@[idx as int].1),
            idx >= self@.len() ==> value is None,
    {
        if idx < self.entries.len() {
            Some(&self.entries[idx].value)
        } else {
            None
        }
    }

    /// The value at a position of the listing, to be changed in place. The
    /// names, and so the order, stay as they are.
    pub fn get_mut(&mut self, idx: usize) -> (value: Option<&mut V>)
        ensures
            idx < old(self)@.len() ==> value is Some && *value->0 == old(self)@[idx as int].1
                && final(self)@ == old(self)@.update(
                idx as int,
                (old(self)@[idx as int].0, *final(value->0)),
            ),
            idx >= old(self)@.len() ==> value is None && final(self)@ == old(self)@,
    {
        if idx < self.entries.len() {
            let ghost before = self@;
            let r = &mut self.entries[idx].value;
            proof {
                assert(after_borrow(self)@ =~= before.update(
                    idx as int,
                    (before[idx as int].0, *final(r)),
                ));
            }
            Some(r)
        } else {
            None
        }
    }

    /// Where a name is, or where it would have to go.
    ///
    /// Returns the position of the entry that bears the name, or else the
    /// position at which an entry of that name keeps the listing ascending.
    pub fn locate(&self, key: &str) -> (r: (bool, usize))
        requires
            self.wf(),
        ensures
            r.0 == has_name(self@, key@),
            r.0 ==> r.1 < self@.len() && self@[r.1 as int].0 == key@,
            !r.0 ==> r.1 <= self@.len(),
            !r.0 ==> forall|j: int| 0 <= j < r.1 ==> text_less(#[trigger] self@[j].0, key@),
            !r.0 ==> forall|j: int| r.1 <= j < self@.len() ==> text_less(key@, #[trigger] self@[j].0),
    {
        let mut i: usize = 0;
        while i < self.entries.len()
            invariant
                i <= self.entries.len(),
                self.wf(),
                forall|j: int| 0 <= j < i ==> text_less(#[trigger] self@[j].0, key@),
            decreases self.entries.len() - i,
        {
            let here = self.entries[i].key.as_str();
            assert(here@ == self@[i as int].0);
            if same_text(here, key) {
                return (true, i);
            }
            if precedes(key, here) {
                proof {
                    assert forall|j: int| i <= j < self@.len() implies text_less(
                        key@,
                        #[trigger] self@[j].0,
                    ) by {
                        if j > i {
                            lemma_text_less_transitive(key@, self@[i as int].0, self@[j].0);
                        }
                    }
                    assert(!has_name(self@, key@)) by {
                        if has_name(self@, key@) {
                            let p = position_of(self@, key@);
                            lemma_text_less_irreflexive(key@);
                        }
                    }
                }
                return (false, i);
            }
            proof {
                lemma_text_less_total(here@, key@);
            }
            i = i + 1;
        }
        proof {
            assert(!has_name(self@, key@)) by {
                if has_name(self@, key@) {
                    let p = position_of(self@, key@);
                    lemma_text_less_irreflexive(key@);
                }
            }
        }
        (false, i)
    }

    /// The entries in the order of the listing.
    pub fn list(&self) -> (entries: &Vec<Entry<V>>)
        ensures
            entries@.len() == self@.len(),
            forall|i: int|
                0 <= i < self@.len() ==> (#[trigger] entries@[i]).key@ == self@[i].0 && entries@[i].value
                    == self@[i].1,
    {
        &self.entries
    }

    /// Puts a value under a name, in place of the value that the name had or
    /// as a new entry at the name's place in the listing.
    pub fn put(&mut self, key: &str, value: V)
        requires
            old(self).wf(),
        ensures
            final(self).wf(),
            final(self).map() == old(self).map().insert(key@, value),
    {
        let (found, idx) = self.locate(key);
        let ghost before = self@;
        if found {
            self.entries[idx].value = value;
            proof {
                assert(self@ =~= before.update(idx as int, (before[idx as int].0, value)));
                lemma_update(before, idx as int, value);
            }
        } else {
            self.entries.insert(idx, Entry { key: key.to_owned(), value });
            proof {
                assert(self@ =~= before.insert(idx as int, (key@, value)));
                lemma_insert(before, idx as int, key@, value);
            }
        }
    }

    /// Fetches the entry of a name, creating it with the value `fresh` where
    /// the catalog has none; returns its position in the listing.
    pub fn entry(&mut self, key: &str, fresh: V) -> (idx: usize)
        requires
            old(self).wf(),
        ensures
            final(self).wf(),
            idx < final(self)@.len(),
            final(self)@[idx as int].0 == key@,
            has_name(old(self)@, key@) ==> final(self)@ == old(self)@,
            !has_name(old(self)@, key@) ==> idx <= old(self)@.len(),
            !has_name(old(self)@, key@) ==> final(self)@ == old(self)@.insert(
                idx as int,
                (key@, fresh),
            ) && final(self).map() == old(self).map().insert(key@, fresh),
    {
        let (found, idx) = self.locate(key);
        if !found {
            let ghost before = self@;
            self.entries.insert(idx, Entry { key: key.to_owned(), value: fresh });
            proof {
                assert(self@ =~= before.insert(idx as int, (key@, fresh)));
                lemma_insert(before, idx as int, key@, fresh);
            }
        }
        idx
    }
}

} // verus!
