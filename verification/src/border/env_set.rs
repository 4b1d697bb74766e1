//! An environment: variable names with their values, each name once, in the
//! order of the names.
use vstd::prelude::*;
use crate::text;

verus! {

/// Where `key` stands in `entries`, if it does.
pub open spec fn holds_key(entries: Seq<(String, String)>, key: Seq<char>) -> bool {
    exists|i: int| 0 <= i < entries.len() && #[trigger] entries[i].0@ == key
}

/// The value that `entries` give `key`.
pub open spec fn value_for(entries: Seq<(String, String)>, key: Seq<char>) -> Seq<char> {
    let i = choose|i: int| 0 <= i < entries.len() && #[trigger] entries[i].0@ == key;
    entries[i].1@
}

/// Each name stands before all that follow it.
pub open spec fn in_order(entries: Seq<(String, String)>) -> bool {
    forall|i: int, j: int|
        0 <= i < j < entries.len() ==> text::precedes(
            (#[trigger] entries[i]).0@,
            (#[trigger] entries[j]).0@,
        )
}

/// `entries` as a map from name to value.
pub open spec fn as_map(entries: Seq<(String, String)>) -> Map<Seq<char>, Seq<char>> {
    Map::new(|k: Seq<char>| holds_key(entries, k), |k: Seq<char>| value_for(entries, k))
}

/// Where each name stands once, the map gives each its value.
pub proof fn lemma_value(entries: Seq<(String, String)>, i: int)
    requires
        in_order(entries),
        0 <= i < entries.len(),
    ensures
        holds_key(entries, entries[i].0@),
        value_for(entries, entries[i].0@) == entries[i].1@,
{
    let key = entries[i].0@;
    assert(entries[i].0@ == key);
    let j = choose|j: int| 0 <= j < entries.len() && #[trigger] entries[j].0@ == key;
    text::precedes_irreflexive(key);
    if j < i {
        assert(text::precedes(entries[j].0@, entries[i].0@));
    } else if i < j {
        assert(text::precedes(entries[i].0@, entries[j].0@));
    }
}

/// The environment of a session.
#[derive(Debug, PartialEq, Eq)]
pub struct EnvSet {
    entries: Vec<(String, String)>,
}

impl EnvSet {
    #[verifier::type_invariant]
    spec fn well_formed(self) -> bool {
        in_order(self.entries@)
    }

    /// The variables with their values, in the order of the names.
    pub closed spec fn entries(&self) -> Seq<(String, String)> {
        self.entries@
    }

    pub open spec fn view(&self) -> Map<Seq<char>, Seq<char>> {
        as_map(self.entries())
    }

    /// The environment without variables.
    pub fn new() -> (r: Self)
        ensures
            r@ == Map::<Seq<char>, Seq<char>>::empty(),
            r.entries().len() == 0,
            in_order(r.entries()),
    {
        let r = EnvSet { entries: Vec::new() };
        assert(r@ =~= Map::<Seq<char>, Seq<char>>::empty());
        r
    }

    /// How many variables there are.
    pub fn len(&self) -> (n: usize)
        ensures
            n == self.entries().len(),
            in_order(self.entries()),
    {
        proof {
            use_type_invariant(self);
        }
        self.entries.len()
    }

    /// The variable at position `i` in the order of the names.
    pub fn entry(&self, i: usize) -> (e: &(String, String))
        requires
            i < self.entries().len(),
        ensures
            *e == self.entries()[i as int],
            in_order(self.entries()),
            self@.dom().contains(e.0@),
            self@[e.0@] == e.1@,
    {
        proof {
            use_type_invariant(self);
            lemma_value(self.entries@, i as int);
        }
        &self.entries[i]
    }

    /// The value of `key`.
    pub fn get(&self, key: &str) -> (v: Option<&str>)
        ensures
            v is Some <==> self@.dom().contains(key@),
            v matches Some(x) ==> x@ == self@[key@],
    {
        proof {
            use_type_invariant(self);
        }
        let mut i: usize = 0;
        while i < self.entries.len()
            invariant
                i <= self.entries.len(),
                in_order(self.entries@),
                forall|j: int| 0 <= j < i ==> (#[trigger] self.entries@[j]).0@ != key@,
            decreases self.entries.len() - i,
        {
            if text::same(self.entries[i].0.as_str(), key) {
                proof {
                    lemma_value(self.entries@, i as int);
                }
                return Some(self.entries[i].1.as_str());
            }
            i = i + 1;
        }
        None
    }

    /// Gives `key` the value `value`, whether or not it had one.
    pub fn insert(&mut self, key: String, value: String)
        ensures
            final(self)@ == old(self)@.insert(key@, value@),
            in_order(final(self).entries()),
    {
        proof {
            use_type_invariant(&*self);
        }
        let mut v: Vec<(String, String)> = Vec::new();
        std::mem::swap(&mut v, &mut self.entries);
        let ghost before = v@;
        let mut i: usize = 0;
        while i < v.len() && text::before(v[i].0.as_str(), key.as_str())
            invariant
                i <= v.len(),
                v@ == before,
                forall|j: int| 0 <= j < i ==> text::precedes((#[trigger] before[j]).0@, key@),
            decreases v.len() - i,
        {
            i = i + 1;
        }
        let ghost k = key@;
        let ghost val = value@;
        let ghost at = i as int;
        proof {
            text::precedes_irreflexive(k);
            if i < before.len() {
                text::precedes_total(before[at].0@, k);
            }
            assert forall|j: int| at < j < before.len() implies text::precedes(k, (#[trigger] before[j]).0@) by {
                assert(text::precedes(before[at].0@, before[j].0@));
                if before[at].0@ != k {
                    text::precedes_transitive(k, before[at].0@, before[j].0@);
                }
            }
        }
        if i < v.len() && text::same(v[i].0.as_str(), key.as_str()) {
            v.set(i, (key, value));
            proof {
                assert(v@ =~= before.update(at, v@[at]));
                assert(in_order(v@));
            }
        } else {
            v.insert(i, (key, value));
            proof {
                assert forall|a: int, b: int| 0 <= a < b < v@.len() implies text::precedes(
                    (#[trigger] v@[a]).0@,
                    (#[trigger] v@[b]).0@,
                ) by {
                    if a < at && b > at {
                        assert(text::precedes(before[a].0@, before[b - 1].0@));
                    } else if a > at {
                        assert(text::precedes(before[a - 1].0@, before[b - 1].0@));
                    } else if b < at {
                        assert(text::precedes(before[a].0@, before[b].0@));
                    } else if a == at {
                        assert(v@[b] == before[b - 1]);
                        if at < b - 1 {
                            assert(text::precedes(k, before[b - 1].0@));
                        }
                    }
                }
                assert(in_order(v@));
            }
        }
        proof {
            lemma_inserted(before, v@, at, k, val);
        }
        self.entries = v;
    }

    /// Adds every variable of `other`; a name in both takes the value of `other`.
    pub fn extend(&mut self, other: &EnvSet)
        ensures
            final(self)@ == old(self)@.union_prefer_right(other@),
    {
        let ghost start = self@;
        let mut i: usize = 0;
        proof {
            assert(start =~= start.union_prefer_right(as_map(other.entries().take(0))));
        }
        while i < other.len()
            invariant
                i <= other.entries().len(),
                self@ == start.union_prefer_right(as_map(other.entries().take(i as int))),
            decreases other.entries().len() - i,
        {
            let e: &(String, String) = other.entry(i);
            proof {
                lemma_prefix(other.entries(), i as int);
            }
            self.insert(e.0.clone(), e.1.clone());
            i = i + 1;
            proof {
                assert(self@ =~= start.union_prefer_right(as_map(other.entries().take(i as int))));
            }
        }
        proof {
            assert(other.entries().take(i as int) =~= other.entries());
        }
    }

    /// The environment that `pairs` give, a later pair over an earlier one.
    pub fn from_pairs(pairs: Vec<(String, String)>) -> (r: Self)
        ensures
            r@ == pairs_map(pairs@),
    {
        let mut r: EnvSet = EnvSet::new();
        let mut i: usize = 0;
        while i < pairs.len()
            invariant
                i <= pairs.len(),
                r@ == pairs_map(pairs@.take(i as int)),
            decreases pairs.len() - i,
        {
            proof {
                assert(pairs@.take(i + 1).drop_last() =~= pairs@.take(i as int));
            }
            r.insert(pairs[i].0.clone(), pairs[i].1.clone());
            i = i + 1;
        }
        proof {
            assert(pairs@.take(i as int) =~= pairs@);
        }
        r
    }
}

/// The map that a list of pairs gives, a later pair over an earlier one.
pub open spec fn pairs_map(pairs: Seq<(String, String)>) -> Map<Seq<char>, Seq<char>>
    decreases pairs.len(),
{
    if pairs.len() == 0 {
        Map::empty()
    } else {
        pairs_map(pairs.drop_last()).insert(pairs.last().0@, pairs.last().1@)
    }
}

proof fn lemma_inserted(
    before: Seq<(String, String)>,
    after: Seq<(String, String)>,
    at: int,
    key: Seq<char>,
    value: Seq<char>,
)
    requires
        in_order(before),
        in_order(after),
        0 <= at < after.len(),
        after[at].0@ == key,
        after[at].1@ == value,
        ({
            ||| at < before.len() && before[at].0@ == key && after == before.update(at, after[at])
            ||| at <= before.len() && after == before.insert(at, after[at])
        }),
    ensures
        as_map(after) == as_map(before).insert(key, value),
{
    lemma_value(after, at);
    assert forall|k: Seq<char>| holds_key(after, k) == (k == key || holds_key(before, k)) by {
        if holds_key(after, k) && k != key {
            let j = choose|j: int| 0 <= j < after.len() && #[trigger] after[j].0@ == k;
            if after == before.update(at, after[at]) && after.len() == before.len() {
                assert(before[j].0@ == k);
            } else if j < at {
                assert(before[j].0@ == k);
            } else {
                assert(before[j - 1].0@ == k);
            }
        }
        if holds_key(before, k) && k != key {
            let j = choose|j: int| 0 <= j < before.len() && #[trigger] before[j].0@ == k;
            if after.len() == before.len() {
                assert(after[j].0@ == k);
            } else if j < at {
                assert(after[j].0@ == k);
            } else {
                assert(after[j + 1].0@ == k);
            }
        }
    }
    assert forall|k: Seq<char>| holds_key(before, k) && k != key implies value_for(after, k) == value_for(
        before,
        k,
    ) by {
        let j = choose|j: int| 0 <= j < before.len() && #[trigger] before[j].0@ == k;
        lemma_value(before, j);
        if after.len() == before.len() {
            lemma_value(after, j);
        } else if j < at {
            lemma_value(after, j);
        } else {
            assert(after[j + 1] == before[j]);
            lemma_value(after, j + 1);
        }
    }
    assert(as_map(after) =~= as_map(before).insert(key, value));
}

proof fn lemma_prefix(entries: Seq<(String, String)>, i: int)
    requires
        in_order(entries),
        0 <= i < entries.len(),
    ensures
        as_map(entries.take(i + 1)) == as_map(entries.take(i)).insert(entries[i].0@, entries[i].1@),
{
    let a = entries.take(i);
    let b = entries.take(i + 1);
    assert(b =~= a.insert(i, b[i]));
    lemma_inserted(a, b, i, entries[i].0@, entries[i].1@);
}

impl Clone for EnvSet {
    fn clone(&self) -> (r: Self)
        ensures
            r.entries() == self.entries(),
    {
        proof {
            use_type_invariant(self);
        }
        let mut v: Vec<(String, String)> = Vec::new();
        let mut i: usize = 0;
        while i < self.entries.len()
            invariant
                i <= self.entries.len(),
                v@ == self.entries@.take(i as int),
            decreases self.entries.len() - i,
        {
            v.push((self.entries[i].0.clone(), self.entries[i].1.clone()));
            i = i + 1;
            proof {
                assert(v@ =~= self.entries@.take(i as int));
            }
        }
        proof {
            assert(v@ =~= self.entries@);
        }
        EnvSet { entries: v }
    }
}

/// An environment holds what its entries say and nothing else: each entry is a
/// variable with its value, and each variable is an entry.
pub proof fn every_entry_is_a_variable(entries: Seq<(String, String)>, key: Seq<char>, i: int)
    requires
        in_order(entries),
    ensures
        0 <= i < entries.len() ==> as_map(entries).contains_key(entries[i].0@) && as_map(
            entries,
        )[entries[i].0@] == entries[i].1@,
        as_map(entries).contains_key(key) ==> exists|j: int|
            0 <= j < entries.len() && (#[trigger] entries[j]).0@ == key && entries[j].1@ == as_map(
                entries,
            )[key],
{
    if 0 <= i < entries.len() {
        lemma_value(entries, i);
    }
    if as_map(entries).contains_key(key) {
        let j = choose|j: int| 0 <= j < entries.len() && #[trigger] entries[j].0@ == key;
        lemma_value(entries, j);
    }
}

/// Of several pairs of one name the last counts, and a name in no pair is not there.
pub proof fn the_last_pair_of_a_name_counts(pairs: Seq<(String, String)>, key: Seq<char>, i: int)
    requires
        -1 <= i < pairs.len(),
        i >= 0 ==> pairs[i].0@ == key,
        forall|j: int| i < j < pairs.len() ==> (#[trigger] pairs[j]).0@ != key,
    ensures
        i >= 0 ==> pairs_map(pairs).contains_key(key) && pairs_map(pairs)[key] == pairs[i].1@,
        i < 0 ==> !pairs_map(pairs).contains_key(key),
    decreases pairs.len(),
{
    if pairs.len() > 0 && i < pairs.len() - 1 {
        let init = pairs.drop_last();
        assert forall|j: int| i < j < init.len() implies (#[trigger] init[j]).0@ != key by {
            assert(init[j] == pairs[j]);
        }
        the_last_pair_of_a_name_counts(init, key, i);
        assert(pairs[pairs.len() - 1].0@ != key);
    }
}

} // verus!
