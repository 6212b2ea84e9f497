//! Attribute maps: finite maps from names to values, kept as lists of
//! entries in which no name occurs twice.

use vstd::prelude::*;

verus! {

/// Whether some entry of `s` is named `k`.
pub open spec fn has_name<V>(s: Seq<(String, V)>, k: Seq<char>) -> bool {
    exists|i: int| 0 <= i < s.len() && (#[trigger] s[i]).0@ == k
}

/// The position of an entry of `s` named `k`, where there is one.
pub open spec fn position_of<V>(s: Seq<(String, V)>, k: Seq<char>) -> int {
    choose|i: int| 0 <= i < s.len() && (#[trigger] s[i]).0@ == k
}

/// Whether no two entries of `s` have the same name.
pub open spec fn distinct_names<V>(s: Seq<(String, V)>) -> bool {
    forall|i: int, j: int|
        0 <= i < j < s.len() ==> (#[trigger] s[i]).0@ != (#[trigger] s[j]).0@
}

/// The map that a list of entries stands for: each name is sent to the view
/// of the value listed under it.
pub open spec fn entry_map<V: View>(s: Seq<(String, V)>) -> Map<Seq<char>, V::V> {
    Map::new(|k: Seq<char>| has_name(s, k), |k: Seq<char>| s[position_of(s, k)].1@)
}

/// In a list with distinct names, the entry at `i` is the one its name finds.
pub proof fn lemma_position_of<V>(s: Seq<(String, V)>, i: int)
    requires
        distinct_names(s),
        0 <= i < s.len(),
    ensures
        has_name(s, s[i].0@),
        position_of(s, s[i].0@) == i,
{
    let k = s[i].0@;
    assert(has_name(s, k));
    let j = position_of(s, k);
    assert(0 <= j < s.len() && s[j].0@ == k);
    if j < i {
        assert(s[j].0@ != s[i].0@);
    } else if i < j {
        assert(s[i].0@ != s[j].0@);
    }
}

/// Appending an entry under a name not yet present adds it to the map.
pub proof fn lemma_entry_map_push<V: View>(s: Seq<(String, V)>, e: (String, V))
    requires
        distinct_names(s),
        !has_name(s, e.0@),
    ensures
        distinct_names(s.push(e)),
        entry_map(s.push(e)) == entry_map(s).insert(e.0@, e.1@),
{
    let t = s.push(e);
    assert forall|i: int, j: int| 0 <= i < j < t.len() implies (#[trigger] t[i]).0@ != (
    #[trigger] t[j]).0@ by {
        if j < s.len() {
            assert(s[i].0@ != s[j].0@);
        } else {
            assert(s[i] == t[i]);
            if s[i].0@ == e.0@ {
                assert(has_name(s, e.0@));
            }
        }
    }
    assert forall|k: Seq<char>| has_name(t, k) <==> (k == e.0@ || has_name(s, k)) by {
        if has_name(t, k) {
            let i = position_of(t, k);
            if i < s.len() {
                assert(s[i] == t[i]);
            }
        }
        if has_name(s, k) {
            let i = position_of(s, k);
            assert(t[i] == s[i]);
        }
        if k == e.0@ {
            assert(t[s.len() as int].0@ == k);
        }
    }
    assert forall|k: Seq<char>| has_name(t, k) implies #[trigger] entry_map(t)[k] == entry_map(
        s,
    ).insert(e.0@, e.1@)[k] by {
        if k == e.0@ {
            lemma_position_of(t, s.len() as int);
        } else {
            let i = position_of(s, k);
            assert(t[i] == s[i]);
            lemma_position_of(t, i);
        }
    }
    assert(entry_map(t) =~= entry_map(s).insert(e.0@, e.1@));
}

/// Replacing the value of the entry at `i` replaces it in the map.
pub proof fn lemma_entry_map_update<V: View>(s: Seq<(String, V)>, i: int, e: (String, V))
    requires
        distinct_names(s),
        0 <= i < s.len(),
        e.0@ == s[i].0@,
    ensures
        distinct_names(s.update(i, e)),
        entry_map(s.update(i, e)) == entry_map(s).insert(e.0@, e.1@),
{
    let t = s.update(i, e);
    assert forall|a: int, b: int| 0 <= a < b < t.len() implies (#[trigger] t[a]).0@ != (
    #[trigger] t[b]).0@ by {
        assert(s[a].0@ != s[b].0@);
    }
    assert forall|k: Seq<char>| has_name(t, k) <==> has_name(s, k) by {
        if has_name(t, k) {
            let j = position_of(t, k);
            assert(s[j].0@ == k);
        }
        if has_name(s, k) {
            let j = position_of(s, k);
            assert(t[j].0@ == k);
        }
    }
    assert(has_name(s, e.0@));
    assert forall|k: Seq<char>| has_name(t, k) implies #[trigger] entry_map(t)[k] == entry_map(
        s,
    ).insert(e.0@, e.1@)[k] by {
        let j = position_of(s, k);
        lemma_position_of(s, j);
        assert(t[j].0@ == k);
        lemma_position_of(t, j);
    }
    assert(entry_map(t) =~= entry_map(s).insert(e.0@, e.1@));
}

/// A list with distinct names stands for a map with as many entries.
pub proof fn lemma_entry_map_len<V: View>(s: Seq<(String, V)>)
    requires
        distinct_names(s),
    ensures
        entry_map(s).dom().finite(),
        entry_map(s).dom().len() == s.len(),
    decreases s.len(),
{
    if s.len() == 0 {
        assert(entry_map(s).dom() =~= Set::<Seq<char>>::empty());
    } else {
        let front = s.drop_last();
        let e = s.last();
        assert forall|i: int, j: int| 0 <= i < j < front.len() implies (#[trigger] front[i]).0@
            != (#[trigger] front[j]).0@ by {
            assert(s[i].0@ != s[j].0@);
        }
        if has_name(front, e.0@) {
            let i = position_of(front, e.0@);
            assert(s[i].0@ != s[s.len() - 1].0@);
        }
        lemma_entry_map_len(front);
        lemma_entry_map_push(front, e);
        assert(front.push(e) =~= s);
        assert(entry_map(s).dom() =~= entry_map(front).dom().insert(e.0@));
        assert(!entry_map(front).dom().contains(e.0@));
    }
}

/// A map from attribute names to values of type `V`.
#[derive(Debug)]
pub struct AttributeMap<V> {
    entries: Vec<(String, V)>,
}

/// A map from attribute names to text.
pub type Attributes = AttributeMap<String>;

impl<V: View> View for AttributeMap<V> {
    type V = Map<Seq<char>, V::V>;

    closed spec fn view(&self) -> Map<Seq<char>, V::V> {
        entry_map(self.entries@)
    }
}

impl<V> AttributeMap<V> {
    #[verifier::type_invariant]
    spec fn well_formed(self) -> bool {
        distinct_names(self.entries@)
    }

    /// The entries of the map, in the order in which their names were first
    /// stored.
    pub closed spec fn listing(&self) -> Seq<(String, V)> {
        self.entries@
    }
}

impl<V: View> AttributeMap<V> {
    /// The map without entries.
    pub fn new() -> (r: Self)
        ensures
            r@ == Map::<Seq<char>, V::V>::empty(),
            r.listing() == Seq::<(String, V)>::empty(),
    {
        let r = AttributeMap { entries: Vec::new() };
        assert(r@ =~= Map::<Seq<char>, V::V>::empty());
        r
    }

    fn find(&self, name: &String) -> (r: Option<usize>)
        ensures
            match r {
                Some(i) => i < self.entries@.len() && self.entries@[i as int].0@ == name@,
                None => !has_name(self.entries@, name@),
            },
    {
        let mut i: usize = 0;
        while i < self.entries.len()
            invariant
                i <= self.entries@.len(),
                forall|j: int| 0 <= j < i ==> (#[trigger] self.entries@[j]).0@ != name@,
            decreases self.entries@.len() - i,
        {
            if self.entries[i].0 == *name {
                return Some(i);
            }
            i += 1;
        }
        None
    }

    /// The number of entries. The listing has as many, none of them under
    /// the name of another, and stands for the map.
    pub fn len(&self) -> (r: usize)
        ensures
            self@.dom().finite(),
            r == self@.dom().len(),
            r == self.listing().len(),
            distinct_names(self.listing()),
            entry_map(self.listing()) == self@,
    {
        proof {
            use_type_invariant(self);
            lemma_entry_map_len(self.entries@);
        }
        self.entries.len()
    }

    /// Whether the map has no entry.
    pub fn is_empty(&self) -> (r: bool)
        ensures
            r == (self@ == Map::<Seq<char>, V::V>::empty()),
    {
        proof {
            use_type_invariant(self);
            lemma_entry_map_len(self.entries@);
            if self.entries@.len() == 0 {
                assert(self@ =~= Map::<Seq<char>, V::V>::empty());
            }
        }
        self.entries.len() == 0
    }

    /// Whether the map has an entry named `name`.
    pub fn contains_key(&self, name: &str) -> (r: bool)
        ensures
            r == self@.contains_key(name@),
    {
        let owned = name.to_owned();
        self.find(&owned).is_some()
    }

    /// The value stored under `name`, if there is one.
    pub fn get(&self, name: &str) -> (r: Option<&V>)
        ensures
            match r {
                Some(v) => self@.contains_key(name@) && self@[name@] == v@,
                None => !self@.contains_key(name@),
            },
    {
        let owned = name.to_owned();
        match self.find(&owned) {
            Some(i) => {
                proof {
                    use_type_invariant(self);
                    lemma_position_of(self.entries@, i as int);
                }
                Some(&self.entries[i].1)
            },
            None => None,
        }
    }

    /// The entry at position `i` of the listing, if the listing is that long.
    pub fn entry_at(&self, i: usize) -> (r: Option<(&String, &V)>)
        ensures
            match r {
                Some((name, value)) => {
                    &&& i < self.listing().len()
                    &&& *name == self.listing()[i as int].0
                    &&& *value == self.listing()[i as int].1
                },
                None => i >= self.listing().len(),
            },
    {
        if i < self.entries.len() {
            Some((&self.entries[i].0, &self.entries[i].1))
        } else {
            None
        }
    }

    /// Stores `value` under `name`, in place of any value stored there before.
    pub fn insert(&mut self, name: String, value: V)
        ensures
            final(self)@ == old(self)@.insert(name@, value@),
    {
        proof {
            use_type_invariant(&*self);
        }
        let found = self.find(&name);
        let mut entries: Vec<(String, V)> = Vec::new();
        std::mem::swap(&mut self.entries, &mut entries);
        match found {
            Some(i) => {
                proof {
                    lemma_entry_map_update(entries@, i as int, (name, value));
                }
                entries[i] = (name, value);
            },
            None => {
                proof {
                    lemma_entry_map_push(entries@, (name, value));
                }
                entries.push((name, value));
            },
        }
        self.entries = entries;
    }
}

/// The text of an optional string.
pub open spec fn optional_text(o: Option<String>) -> Option<Seq<char>> {
    match o {
        Some(s) => Some(s@),
        None => None,
    }
}

/// A copy of an optional string.
pub fn copy_optional_text(o: &Option<String>) -> (r: Option<String>)
    ensures
        r == *o,
{
    match o {
        Some(s) => Some(s.clone()),
        None => None,
    }
}

/// The names among `names`, as a set.
pub open spec fn name_set(names: Seq<String>) -> Set<Seq<char>> {
    Set::new(|k: Seq<char>| exists|i: int| 0 <= i < names.len() && (#[trigger] names[i])@ == k)
}

impl Clone for AttributeMap<String> {
    fn clone(&self) -> (r: Self)
        ensures
            r@ == self@,
            r.listing() == self.listing(),
    {
        proof {
            use_type_invariant(self);
        }
        let mut entries: Vec<(String, String)> = Vec::new();
        let mut i: usize = 0;
        while i < self.entries.len()
            invariant
                i <= self.entries@.len(),
                entries@ == self.entries@.subrange(0, i as int),
            decreases self.entries@.len() - i,
        {
            entries.push((self.entries[i].0.clone(), self.entries[i].1.clone()));
            assert(entries@ =~= self.entries@.subrange(0, i + 1));
            i += 1;
        }
        assert(entries@ =~= self.entries@);
        AttributeMap { entries }
    }
}

impl AttributeMap<String> {
    /// Whether the two maps have the same entries.
    pub fn same_as(&self, other: &Attributes) -> (r: bool)
        ensures
            r == (self@ == other@),
    {
        proof {
            use_type_invariant(self);
            use_type_invariant(other);
        }
        let mut i: usize = 0;
        while i < self.entries.len()
            invariant
                i <= self.entries@.len(),
                distinct_names(self.entries@),
                forall|j: int|
                    0 <= j < i ==> other@.contains_key((#[trigger] self.entries@[j]).0@)
                        && other@[self.entries@[j].0@] == self.entries@[j].1@,
            decreases self.entries@.len() - i,
        {
            proof {
                lemma_position_of(self.entries@, i as int);
            }
            match other.get(self.entries[i].0.as_str()) {
                Some(v) => {
                    if *v != self.entries[i].1 {
                        let ghost name = self.entries@[i as int].0@;
                        assert(self@[name] != other@[name]);
                        return false;
                    }
                },
                None => {
                    assert(self@.contains_key(self.entries@[i as int].0@));
                    return false;
                },
            }
            i += 1;
        }
        let mut j: usize = 0;
        while j < other.entries.len()
            invariant
                j <= other.entries@.len(),
                distinct_names(other.entries@),
                forall|k: int|
                    0 <= k < j ==> self@.contains_key((#[trigger] other.entries@[k]).0@),
            decreases other.entries@.len() - j,
        {
            proof {
                lemma_position_of(other.entries@, j as int);
            }
            if !self.contains_key(other.entries[j].0.as_str()) {
                assert(other@.contains_key(other.entries@[j as int].0@));
                return false;
            }
            j += 1;
        }
        proof {
            assert forall|k: Seq<char>| self@.contains_key(k) implies other@.contains_key(k)
                && self@[k] == other@[k] by {
                let p = position_of(self.entries@, k);
                lemma_position_of(self.entries@, p);
                assert(other@.contains_key(self.entries@[p].0@));
            }
            assert forall|k: Seq<char>| other@.contains_key(k) implies self@.contains_key(k) by {
                let p = position_of(other.entries@, k);
                assert(self@.contains_key(other.entries@[p].0@));
            }
            assert(self@ =~= other@);
        }
        true
    }

    /// The entries whose names are among `names`.
    pub fn select(&self, names: &Vec<String>) -> (r: Attributes)
        ensures
            r@ == self@.restrict(name_set(names@)),
    {
        let mut r: Attributes = AttributeMap::new();
        let mut i: usize = 0;
        assert(r@ =~= self@.restrict(name_set(names@.subrange(0, 0))));
        while i < names.len()
            invariant
                i <= names@.len(),
                r@ == self@.restrict(name_set(names@.subrange(0, i as int))),
            decreases names@.len() - i,
        {
            let ghost before = names@.subrange(0, i as int);
            let ghost after = names@.subrange(0, i + 1);
            proof {
                assert forall|k: Seq<char>|
                    name_set(after).contains(k) <==> (name_set(before).contains(k) || k
                        == names@[i as int]@) by {
                    if name_set(after).contains(k) {
                        let j = choose|j: int| 0 <= j < after.len() && (#[trigger] after[j])@ == k;
                        if j < i {
                            assert(before[j]@ == k);
                        }
                    }
                    if name_set(before).contains(k) {
                        let j = choose|j: int|
                            0 <= j < before.len() && (#[trigger] before[j])@ == k;
                        assert(after[j]@ == k);
                    }
                    if k == names@[i as int]@ {
                        assert(after[i as int]@ == k);
                    }
                }
            }
            match self.get(names[i].as_str()) {
                Some(v) => {
                    r.insert(names[i].clone(), v.clone());
                },
                None => {},
            }
            assert(r@ =~= self@.restrict(name_set(after)));
            i += 1;
        }
        assert(names@.subrange(0, names@.len() as int) =~= names@);
        r
    }

    /// A copy of the entries, as pairs of name and value.
    pub fn to_vec(&self) -> (r: Vec<(String, String)>)
        ensures
            r@ == self.listing(),
            distinct_names(r@),
            entry_map(r@) == self@,
    {
        proof {
            use_type_invariant(self);
        }
        let copy = self.clone();
        copy.entries
    }
}

/// The value of a message attribute: text, or binary data written in
/// base 64, and the name of its data type.
#[derive(Debug, PartialEq, Eq)]
pub struct MessageAttributeValue {
    pub string_value: Option<String>,
    pub binary_value: Option<String>,
    pub data_type: String,
}

/// What a `MessageAttributeValue` holds, as plain text.
pub struct MessageAttributeValueView {
    pub string_value: Option<Seq<char>>,
    pub binary_value: Option<Seq<char>>,
    pub data_type: Seq<char>,
}

impl View for MessageAttributeValue {
    type V = MessageAttributeValueView;

    open spec fn view(&self) -> MessageAttributeValueView {
        MessageAttributeValueView {
            string_value: optional_text(self.string_value),
            binary_value: optional_text(self.binary_value),
            data_type: self.data_type@,
        }
    }
}

impl Clone for MessageAttributeValue {
    fn clone(&self) -> (r: Self)
        ensures
            r == *self,
    {
        MessageAttributeValue {
            string_value: copy_optional_text(&self.string_value),
            binary_value: copy_optional_text(&self.binary_value),
            data_type: self.data_type.clone(),
        }
    }
}

/// A map from attribute names to message attribute values.
pub type MessageAttributes = AttributeMap<MessageAttributeValue>;

impl Clone for AttributeMap<MessageAttributeValue> {
    fn clone(&self) -> (r: Self)
        ensures
            r@ == self@,
            r.listing() == self.listing(),
    {
        proof {
            use_type_invariant(self);
        }
        let mut entries: Vec<(String, MessageAttributeValue)> = Vec::new();
        let mut i: usize = 0;
        while i < self.entries.len()
            invariant
                i <= self.entries@.len(),
                entries@ == self.entries@.subrange(0, i as int),
            decreases self.entries@.len() - i,
        {
            entries.push((self.entries[i].0.clone(), self.entries[i].1.clone()));
            assert(entries@ =~= self.entries@.subrange(0, i + 1));
            i += 1;
        }
        assert(entries@ =~= self.entries@);
        AttributeMap { entries }
    }
}

} // verus!
