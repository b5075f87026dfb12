//! The resolved value set: the live mapping from variable name to scalar
//! value for one generation run. Keys are unique; the set grows while slots
//! are resolved and is read by the tree walker.
use vstd::prelude::*;

use crate::strutil::str_eq;

verus! {

/// A scalar value held in the resolved value set: templates substitute
/// strings and booleans only.
#[derive(Clone, Debug, PartialEq)]
pub enum Value {
    Str(String),
    Bool(bool),
}

/// A pre-supplied scalar as it arrives from outside: a string, a boolean,
/// or some other kind that the engine rejects.
#[derive(Clone, Debug, PartialEq)]
pub enum PlainValue {
    Str(String),
    Bool(bool),
    Other,
}

/// The mathematical shape of a [`Value`].
pub enum SpecValue {
    Str(Seq<char>),
    Bool(bool),
}

impl View for Value {
    type V = SpecValue;

    open spec fn view(&self) -> SpecValue {
        match self {
            Value::Str(s) => SpecValue::Str(s@),
            Value::Bool(b) => SpecValue::Bool(*b),
        }
    }
}

/// The map described by an association list, later entries winning.
pub open spec fn map_of(s: Seq<(String, Value)>) -> Map<Seq<char>, SpecValue>
    decreases s.len(),
{
    if s.len() == 0 {
        Map::empty()
    } else {
        map_of(s.drop_last()).insert(s.last().0@, s.last().1@)
    }
}

/// No two entries share a key.
pub open spec fn unique_keys(s: Seq<(String, Value)>) -> bool {
    forall|i: int, j: int| 0 <= i < j < s.len() ==> s[i].0@ != s[j].0@
}

/// The resolved value set: variable name to scalar value, keys unique.
pub struct ValueMap {
    entries: Vec<(String, Value)>,
}

impl View for ValueMap {
    type V = Map<Seq<char>, SpecValue>;

    closed spec fn view(&self) -> Map<Seq<char>, SpecValue> {
        map_of(self.entries@)
    }
}

proof fn lemma_map_of_contains(s: Seq<(String, Value)>, k: Seq<char>)
    ensures
        map_of(s).contains_key(k) <==> exists|i: int| 0 <= i < s.len() && s[i].0@ == k,
    decreases s.len(),
{
    if s.len() > 0 {
        lemma_map_of_contains(s.drop_last(), k);
        if s.last().0@ != k && map_of(s).contains_key(k) {
            let i = choose|i: int| 0 <= i < s.drop_last().len() && s.drop_last()[i].0@ == k;
            assert(s[i].0@ == k);
        }
        if exists|i: int| 0 <= i < s.len() && s[i].0@ == k {
            let i = choose|i: int| 0 <= i < s.len() && s[i].0@ == k;
            if i < s.len() - 1 {
                assert(s.drop_last()[i].0@ == k);
            }
        }
    }
}

proof fn lemma_map_of_len(s: Seq<(String, Value)>)
    requires
        unique_keys(s),
    ensures
        map_of(s).dom().finite(),
        map_of(s).len() == s.len(),
    decreases s.len(),
{
    if s.len() > 0 {
        assert(unique_keys(s.drop_last()));
        lemma_map_of_len(s.drop_last());
        lemma_map_of_contains(s.drop_last(), s.last().0@);
    }
}

proof fn lemma_map_of_found(s: Seq<(String, Value)>, i: int)
    requires
        unique_keys(s),
        0 <= i < s.len(),
    ensures
        map_of(s).contains_key(s[i].0@),
        map_of(s)[s[i].0@] == s[i].1@,
    decreases s.len(),
{
    if i < s.len() - 1 {
        assert(unique_keys(s.drop_last()));
        assert(s.drop_last()[i] == s[i]);
        lemma_map_of_found(s.drop_last(), i);
    }
}

proof fn lemma_map_of_update(s: Seq<(String, Value)>, i: int, k: String, v: Value)
    requires
        unique_keys(s),
        0 <= i < s.len(),
        k@ == s[i].0@,
    ensures
        map_of(s.update(i, (k, v))) =~= map_of(s).insert(k@, v@),
        unique_keys(s.update(i, (k, v))),
    decreases s.len(),
{
    let t = s.update(i, (k, v));
    assert forall|a: int, b: int| 0 <= a < b < t.len() implies t[a].0@ != t[b].0@ by {
        assert(s[a].0@ != s[b].0@);
    }
    if i == s.len() - 1 {
        assert(t.drop_last() =~= s.drop_last());
    } else {
        assert(t.drop_last() =~= s.drop_last().update(i, (k, v)));
        assert(s.drop_last()[i] == s[i]);
        assert(unique_keys(s.drop_last()));
        lemma_map_of_update(s.drop_last(), i, k, v);
        assert(s.last().0@ != s[i].0@);
        assert(t.last() == s.last());
    }
}

impl ValueMap {
    /// The entries are well formed: no key occurs twice.
    pub closed spec fn wf(&self) -> bool {
        unique_keys(self.entries@)
    }

    /// An empty value set.
    pub fn new() -> (r: ValueMap)
        ensures
            r@ == Map::<Seq<char>, SpecValue>::empty(),
            r.wf(),
    {
        ValueMap { entries: Vec::new() }
    }

    /// How many variables are resolved.
    pub fn len(&self) -> (r: usize)
        requires
            self.wf(),
        ensures
            r == self@.len(),
    {
        proof {
            lemma_map_of_len(self.entries@);
        }
        self.entries.len()
    }

    /// The entries, in insertion order, for conversion toward the embedded
    /// engines: the association list that describes this very map.
    pub fn entries(&self) -> (r: &Vec<(String, Value)>)
        ensures
            map_of(r@) == self@,
    {
        &self.entries
    }

    /// Whether `key` is already resolved.
    pub fn contains_key(&self, key: &str) -> (r: bool)
        requires
            self.wf(),
        ensures
            r == self@.contains_key(key@),
    {
        let n = self.entries.len();
        let mut i: usize = 0;
        while i < n
            invariant
                n == self.entries@.len(),
                i <= n,
                forall|j: int| 0 <= j < i ==> self.entries@[j].0@ != key@,
            decreases n - i,
        {
            if str_eq(self.entries[i].0.as_str(), key) {
                proof {
                    lemma_map_of_contains(self.entries@, key@);
                }
                return true;
            }
            i += 1;
        }
        proof {
            lemma_map_of_contains(self.entries@, key@);
        }
        false
    }

    /// The value resolved for `key`, if any.
    pub fn get(&self, key: &str) -> (r: Option<&Value>)
        requires
            self.wf(),
        ensures
            match r {
                Some(v) => self@.contains_key(key@) && v@ == self@[key@],
                None => !self@.contains_key(key@),
            },
    {
        let n = self.entries.len();
        let mut i: usize = 0;
        while i < n
            invariant
                self.wf(),
                n == self.entries@.len(),
                i <= n,
                forall|j: int| 0 <= j < i ==> self.entries@[j].0@ != key@,
            decreases n - i,
        {
            if str_eq(self.entries[i].0.as_str(), key) {
                proof {
                    lemma_map_of_found(self.entries@, i as int);
                }
                return Some(&self.entries[i].1);
            }
            i += 1;
        }
        proof {
            lemma_map_of_contains(self.entries@, key@);
        }
        None
    }

    /// Resolves `key` to `value`: a fresh key is added, an existing one is
    /// overwritten (hooks may change a variable in place).
    pub fn insert(&mut self, key: String, value: Value)
        requires
            old(self).wf(),
        ensures
            final(self)@ == old(self)@.insert(key@, value@),
            final(self).wf(),
    {
        let n = self.entries.len();
        let mut i: usize = 0;
        while i < n
            invariant
                n == self.entries@.len(),
                i <= n,
                self.entries@ == old(self).entries@,
                unique_keys(self.entries@),
                forall|j: int| 0 <= j < i ==> self.entries@[j].0@ != key@,
            decreases n - i,
        {
            if str_eq(self.entries[i].0.as_str(), key.as_str()) {
                let ghost old_entries = self.entries@;
                proof {
                    lemma_map_of_update(old_entries, i as int, key, value);
                }
                self.entries[i] = (key, value);
                return ;
            }
            i += 1;
        }
        let ghost old_entries = self.entries@;
        self.entries.push((key, value));
        proof {
            assert(self.entries@.drop_last() =~= old_entries);
            proof_insert_fresh(old_entries, self.entries@, key@);
        }
    }
}

proof fn proof_insert_fresh(s: Seq<(String, Value)>, t: Seq<(String, Value)>, k: Seq<char>)
    requires
        unique_keys(s),
        t.len() == s.len() + 1,
        t.drop_last() =~= s,
        t.last().0@ == k,
        forall|j: int| 0 <= j < s.len() ==> s[j].0@ != k,
    ensures
        unique_keys(t),
        map_of(t) == map_of(s).insert(k, t.last().1@),
{
    assert forall|i: int, j: int| 0 <= i < j < t.len() implies t[i].0@ != t[j].0@ by {
        if j < t.len() - 1 {
            assert(s[i] == t[i] && s[j] == t[j]);
        } else {
            assert(s[i] == t[i]);
        }
    }
}

} // verus!
