//! An insertion-ordered map from names to texts.

use vstd::prelude::*;

verus! {

/// The value bound to `key` in `entries`, if any. With distinct keys at most
/// one entry matches.
pub open spec fn lookup(entries: Seq<(Seq<char>, Seq<char>)>, key: Seq<char>) -> Option<Seq<char>>
    decreases entries.len(),
{
    if entries.len() == 0 {
        None
    } else if entries[0].0 == key {
        Some(entries[0].1)
    } else {
        lookup(entries.drop_first(), key)
    }
}

/// Whether some entry of `entries` has the key `key`.
pub open spec fn has_key(entries: Seq<(Seq<char>, Seq<char>)>, key: Seq<char>) -> bool {
    exists|i: int| 0 <= i < entries.len() && (#[trigger] entries[i]).0 == key
}

/// No key occurs twice in `entries`.
pub open spec fn distinct_keys(entries: Seq<(Seq<char>, Seq<char>)>) -> bool {
    forall|i: int, j: int|
        0 <= i < j < entries.len() ==> (#[trigger] entries[i]).0 != (#[trigger] entries[j]).0
}

/// `entries` after binding `key` to `value`: the entry of that key gets the
/// new value where it stands; a new key goes to the end.
pub open spec fn bind(
    entries: Seq<(Seq<char>, Seq<char>)>,
    key: Seq<char>,
    value: Seq<char>,
) -> Seq<(Seq<char>, Seq<char>)>
    decreases entries.len(),
{
    if entries.len() == 0 {
        seq![(key, value)]
    } else if entries[0].0 == key {
        seq![(key, value)] + entries.drop_first()
    } else {
        seq![entries[0]] + bind(entries.drop_first(), key, value)
    }
}

/// Binding binds the key and leaves the other keys as they were.
pub proof fn lemma_bind(entries: Seq<(Seq<char>, Seq<char>)>, key: Seq<char>, value: Seq<char>)
    ensures
        lookup(bind(entries, key, value), key) == Some(value),
        forall|other: Seq<char>|
            other != key ==> #[trigger] lookup(bind(entries, key, value), other) == lookup(
                entries,
                other,
            ),
    decreases entries.len(),
{
    let b = bind(entries, key, value);
    if entries.len() == 0 {
        assert(b.drop_first() =~= entries);
    } else if entries[0].0 == key {
        assert(b.drop_first() =~= entries.drop_first());
    } else {
        lemma_bind(entries.drop_first(), key, value);
        assert(b.drop_first() =~= bind(entries.drop_first(), key, value));
    }
    assert forall|other: Seq<char>| other != key implies #[trigger] lookup(b, other) == lookup(
        entries,
        other,
    ) by {
        if entries.len() > 0 && entries[0].0 != key {
            if entries[0].0 != other {
                assert(lookup(bind(entries.drop_first(), key, value), other) == lookup(
                    entries.drop_first(),
                    other,
                ));
            }
        }
    }
}

/// Binding keeps keys distinct.
pub proof fn lemma_bind_distinct(
    entries: Seq<(Seq<char>, Seq<char>)>,
    key: Seq<char>,
    value: Seq<char>,
)
    requires
        distinct_keys(entries),
    ensures
        distinct_keys(bind(entries, key, value)),
{
    let b = bind(entries, key, value);
    if has_key(entries, key) {
        let i = choose|i: int| 0 <= i < entries.len() && (#[trigger] entries[i]).0 == key;
        lemma_bind_at(entries, i, key, value);
        assert forall|x: int, y: int| 0 <= x < y < b.len() implies (#[trigger] b[x]).0 != (
        #[trigger] b[y]).0 by {
        }
    } else {
        lemma_bind_new(entries, key, value);
        assert forall|x: int, y: int| 0 <= x < y < b.len() implies (#[trigger] b[x]).0 != (
        #[trigger] b[y]).0 by {
        }
    }
}

/// A key that no entry has is bound to nothing.
pub proof fn lemma_lookup_none(entries: Seq<(Seq<char>, Seq<char>)>, key: Seq<char>)
    ensures
        lookup(entries, key) is Some <==> has_key(entries, key),
    decreases entries.len(),
{
    if entries.len() > 0 {
        let rest = entries.drop_first();
        lemma_lookup_none(rest, key);
        if entries[0].0 != key {
            if has_key(entries, key) {
                let i = choose|i: int| 0 <= i < entries.len() && (#[trigger] entries[i]).0 == key;
                assert(rest[i - 1] == entries[i]);
            }
            if has_key(rest, key) {
                let i = choose|i: int| 0 <= i < rest.len() && (#[trigger] rest[i]).0 == key;
            }
        }
    }
}

/// The entry at `i` is what its key is bound to, where keys are distinct.
pub proof fn lemma_lookup_at(entries: Seq<(Seq<char>, Seq<char>)>, i: int)
    requires
        distinct_keys(entries),
        0 <= i < entries.len(),
    ensures
        lookup(entries, entries[i].0) == Some(entries[i].1),
    decreases entries.len(),
{
    if i > 0 {
        let rest = entries.drop_first();
        assert forall|a: int, b: int| 0 <= a < b < rest.len() implies (#[trigger] rest[a]).0 != (
        #[trigger] rest[b]).0 by {
        }
        lemma_lookup_at(rest, i - 1);
    }
}

/// The entries that `keys` and `values` make, position by position.
pub open spec fn pairs(keys: Seq<String>, values: Seq<String>) -> Seq<(Seq<char>, Seq<char>)> {
    Seq::new(keys.len(), |i: int| (keys[i]@, values[i]@))
}

/// A map from names to texts that keeps the order in which names were first
/// bound. No name occurs twice.
#[derive(Debug)]
pub struct Variables {
    keys: Vec<String>,
    values: Vec<String>,
}

impl View for Variables {
    type V = Seq<(Seq<char>, Seq<char>)>;

    closed spec fn view(&self) -> Seq<(Seq<char>, Seq<char>)> {
        pairs(self.keys@, self.values@)
    }
}

impl Clone for Variables {
    fn clone(&self) -> (r: Self)
        ensures
            r@ == self@,
    {
        self.duplicate()
    }
}

impl Variables {
    #[verifier::type_invariant]
    spec fn well_formed(self) -> bool {
        &&& self.keys@.len() == self.values@.len()
        &&& distinct_keys(self@)
    }

    /// A copy of the map.
    pub fn duplicate(&self) -> (r: Self)
        ensures
            r@ == self@,
    {
        proof {
            use_type_invariant(self);
        }
        let keys = crate::text::clone_list(&self.keys);
        let values = crate::text::clone_list(&self.values);
        Variables { keys, values }
    }

    /// The empty map.
    pub fn new() -> (v: Self)
        ensures
            v@.len() == 0,
    {
        Variables { keys: Vec::new(), values: Vec::new() }
    }

    /// The number of names bound.
    pub fn len(&self) -> (n: usize)
        ensures
            n == self@.len(),
            distinct_keys(self@),
    {
        proof {
            use_type_invariant(self);
        }
        self.keys.len()
    }

    /// Whether no name is bound.
    pub fn is_empty(&self) -> (b: bool)
        ensures
            b == (self@.len() == 0),
    {
        self.keys.len() == 0
    }

    fn position(&self, key: &str) -> (r: Option<usize>)
        ensures
            match r {
                Some(i) => i < self@.len() && self@[i as int].0 == key@,
                None => !has_key(self@, key@),
            },
    {
        let mut i: usize = 0;
        while i < self.keys.len()
            invariant
                i <= self.keys@.len(),
                self@ == pairs(self.keys@, self.values@),
                forall|j: int| 0 <= j < i ==> (#[trigger] self@[j]).0 != key@,
            decreases self.keys.len() - i,
        {
            if crate::text::same_text(self.keys[i].as_str(), key) {
                return Some(i);
            }
            i = i + 1;
        }
        None
    }

    /// The text bound to `key`.
    pub fn get(&self, key: &str) -> (r: Option<&String>)
        ensures
            match r {
                Some(v) => lookup(self@, key@) == Some(v@),
                None => lookup(self@, key@) is None,
            },
    {
        proof {
            use_type_invariant(self);
            lemma_lookup_none(self@, key@);
        }
        match self.position(key) {
            Some(i) => {
                proof {
                    lemma_lookup_at(self@, i as int);
                }
                Some(&self.values[i])
            },
            None => None,
        }
    }

    /// Whether `key` is bound.
    pub fn contains_key(&self, key: &str) -> (b: bool)
        ensures
            b == has_key(self@, key@),
            b == lookup(self@, key@) is Some,
    {
        proof {
            lemma_lookup_none(self@, key@);
        }
        self.position(key).is_some()
    }

    /// Binds `key` to `value`; gives back what it was bound to before.
    pub fn insert(&mut self, key: String, value: String) -> (prev: Option<String>)
        ensures
            final(self)@ == bind(old(self)@, key@, value@),
            match prev {
                Some(p) => lookup(old(self)@, key@) == Some(p@),
                None => lookup(old(self)@, key@) is None,
            },
    {
        proof {
            use_type_invariant(&*self);
            lemma_lookup_none(self@, key@);
            lemma_bind_distinct(self@, key@, value@);
        }
        let ghost before = self@;
        let found = self.position(key.as_str());
        let mut taken = Variables::new();
        std::mem::swap(self, &mut taken);
        let Variables { keys: mut keys, values: mut values } = taken;
        match found {
            Some(i) => {
                proof {
                    lemma_lookup_at(before, i as int);
                }
                let mut slot = value;
                std::mem::swap(&mut values[i], &mut slot);
                proof {
                    lemma_bind_at(before, i as int, key@, values@[i as int]@);
                    assert(pairs(keys@, values@) =~= before.update(
                        i as int,
                        (key@, values@[i as int]@),
                    ));
                }
                *self = Variables { keys, values };
                Some(slot)
            },
            None => {
                proof {
                    lemma_bind_new(before, key@, value@);
                }
                let ghost k = key@;
                let ghost v = value@;
                keys.push(key);
                values.push(value);
                proof {
                    assert(pairs(keys@, values@) =~= before.push((k, v)));
                }
                *self = Variables { keys, values };
                None
            },
        }
    }

    /// The name at position `i`, in the order of binding.
    pub fn key_at(&self, i: usize) -> (k: &String)
        requires
            i < self@.len(),
        ensures
            k@ == self@[i as int].0,
    {
        proof {
            use_type_invariant(self);
        }
        &self.keys[i]
    }

    /// The text at position `i`, in the order of binding.
    pub fn value_at(&self, i: usize) -> (v: &String)
        requires
            i < self@.len(),
        ensures
            v@ == self@[i as int].1,
    {
        proof {
            use_type_invariant(self);
        }
        &self.values[i]
    }
}

/// Binding the key of entry `i` replaces that entry.
pub proof fn lemma_bind_at(
    entries: Seq<(Seq<char>, Seq<char>)>,
    i: int,
    key: Seq<char>,
    value: Seq<char>,
)
    requires
        distinct_keys(entries),
        0 <= i < entries.len(),
        entries[i].0 == key,
    ensures
        bind(entries, key, value) == entries.update(i, (key, value)),
    decreases entries.len(),
{
    let rest = entries.drop_first();
    if i > 0 {
        assert forall|a: int, b: int| 0 <= a < b < rest.len() implies (#[trigger] rest[a]).0 != (
        #[trigger] rest[b]).0 by {
        }
        lemma_bind_at(rest, i - 1, key, value);
    }
}

/// Binding a key that no entry has appends an entry.
pub proof fn lemma_bind_new(entries: Seq<(Seq<char>, Seq<char>)>, key: Seq<char>, value: Seq<char>)
    requires
        !has_key(entries, key),
    ensures
        bind(entries, key, value) == entries.push((key, value)),
    decreases entries.len(),
{
    if entries.len() > 0 {
        let rest = entries.drop_first();
        assert(!has_key(rest, key)) by {
            if has_key(rest, key) {
                let i = choose|i: int| 0 <= i < rest.len() && (#[trigger] rest[i]).0 == key;
                assert(entries[i + 1] == rest[i]);
            }
        }
        lemma_bind_new(rest, key, value);
    }
}

} // verus!
