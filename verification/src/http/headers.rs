//! The header fields of a message.

use crate::chars::str_equals;
use vstd::prelude::*;
use vstd::std_specs::cmp::PartialEqSpecImpl;

verus! {

/// A header field as a mathematical value: its name and what it holds.
pub type Field = (Seq<char>, Seq<char>);

/// The first index from `i` on at which a field named `key` stands, or the
/// number of fields.
pub open spec fn find_key(fields: Seq<Field>, key: Seq<char>, i: int) -> int
    decreases fields.len() - i,
{
    if 0 <= i < fields.len() && fields[i].0 != key {
        find_key(fields, key, i + 1)
    } else {
        i
    }
}

/// What the field named `key` holds: the first one, if there are several.
pub open spec fn lookup(fields: Seq<Field>, key: Seq<char>) -> Option<Seq<char>> {
    let k = find_key(fields, key, 0);
    if k < fields.len() {
        Some(fields[k].1)
    } else {
        None
    }
}

/// The fields after `key` has been set to `value`: the field of that name
/// holds the new value in its old place, and a new name comes last.
pub open spec fn with_field(fields: Seq<Field>, key: Seq<char>, value: Seq<char>) -> Seq<Field> {
    let k = find_key(fields, key, 0);
    if k < fields.len() {
        fields.update(k, (key, value))
    } else {
        fields.push((key, value))
    }
}

/// No name occurs twice.
pub open spec fn distinct_keys(fields: Seq<Field>) -> bool {
    forall|i: int, j: int|
        0 <= i < j < fields.len() ==> (#[trigger] fields[i]).0 != (#[trigger] fields[j]).0
}

/// `find_key` is the one index that bounds the fields of other names.
pub proof fn lemma_find_key(fields: Seq<Field>, key: Seq<char>, i: int)
    requires
        0 <= i <= fields.len(),
    ensures
        i <= find_key(fields, key, i) <= fields.len(),
        forall|j: int| i <= j < find_key(fields, key, i) ==> (#[trigger] fields[j]).0 != key,
        find_key(fields, key, i) < fields.len() ==> fields[find_key(fields, key, i)].0 == key,
    decreases fields.len() - i,
{
    if i < fields.len() && fields[i].0 != key {
        lemma_find_key(fields, key, i + 1);
    }
}

/// Any index that bounds the fields of other names in this way is `find_key`.
pub proof fn lemma_find_key_unique(fields: Seq<Field>, key: Seq<char>, i: int, k: int)
    requires
        0 <= i <= k <= fields.len(),
        forall|j: int| i <= j < k ==> (#[trigger] fields[j]).0 != key,
        k < fields.len() ==> fields[k].0 == key,
    ensures
        find_key(fields, key, i) == k,
    decreases k - i,
{
    if i < k {
        lemma_find_key_unique(fields, key, i + 1, k);
    }
}

/// Setting a field changes what that name holds and nothing else, and keeps
/// the names distinct.
pub proof fn lemma_with_field(fields: Seq<Field>, key: Seq<char>, value: Seq<char>)
    ensures
        lookup(with_field(fields, key, value), key) == Some(value),
        forall|other: Seq<char>|
            other != key ==> lookup(with_field(fields, key, value), other) == lookup(
                fields,
                other,
            ),
        distinct_keys(fields) ==> distinct_keys(with_field(fields, key, value)),
{
    let after = with_field(fields, key, value);
    let k = find_key(fields, key, 0);
    lemma_find_key(fields, key, 0);
    lemma_find_key_unique(after, key, 0, k);
    assert forall|other: Seq<char>| other != key implies lookup(after, other) == lookup(
        fields,
        other,
    ) by {
        let o = find_key(fields, other, 0);
        lemma_find_key(fields, other, 0);
        if o < fields.len() {
            lemma_find_key_unique(after, other, 0, o);
        } else {
            lemma_find_key_unique(after, other, 0, after.len() as int);
        }
    }
}

/// The names of the fields, in their order.
pub open spec fn keys(fields: Seq<Field>) -> Seq<Seq<char>> {
    fields.map_values(|f: Field| f.0)
}

/// The fields as a map from names to contents.
pub open spec fn fields_map(fields: Seq<Field>) -> Map<Seq<char>, Seq<char>> {
    Map::new(|k: Seq<char>| lookup(fields, k) is Some, |k: Seq<char>| lookup(fields, k).unwrap())
}

/// Whether `a` and `b` are equally many fields and `b` holds every field of
/// `a` under the same name.
pub open spec fn same_fields(a: Seq<Field>, b: Seq<Field>) -> bool {
    &&& a.len() == b.len()
    &&& forall|j: int| 0 <= j < a.len() ==> lookup(b, (#[trigger] a[j]).0) == Some(a[j].1)
}

/// Among fields of distinct names each is found under its own name, and the
/// names that are found are the names of the fields.
pub proof fn lemma_lookup_distinct(fields: Seq<Field>)
    requires
        distinct_keys(fields),
    ensures
        forall|j: int|
            0 <= j < fields.len() ==> lookup(fields, (#[trigger] fields[j]).0) == Some(fields[j].1),
        fields_map(fields).dom() =~= keys(fields).to_set(),
        keys(fields).no_duplicates(),
        keys(fields).to_set().finite(),
        keys(fields).to_set().len() == fields.len(),
{
    assert forall|j: int| 0 <= j < fields.len() implies lookup(fields, (#[trigger] fields[j]).0)
        == Some(fields[j].1) by {
        lemma_find_key_unique(fields, fields[j].0, 0, j);
    }
    assert forall|k: Seq<char>| lookup(fields, k) is Some <==> keys(fields).contains(k) by {
        lemma_find_key(fields, k, 0);
        if lookup(fields, k) is Some {
            assert(keys(fields)[find_key(fields, k, 0)] == k);
        }
        if keys(fields).contains(k) {
            let j = choose|j: int| 0 <= j < keys(fields).len() && keys(fields)[j] == k;
            assert(fields[j].0 == k);
        }
    }
    assert forall|i: int, j: int|
        0 <= i < keys(fields).len() && 0 <= j < keys(fields).len() && i != j implies keys(
        fields,
    )[i] != keys(fields)[j] by {
        if i < j {
            assert(fields[i].0 != fields[j].0);
        } else {
            assert(fields[j].0 != fields[i].0);
        }
    }
    keys(fields).unique_seq_to_set();
    vstd::seq_lib::seq_to_set_is_finite(keys(fields));
}

/// Fields of distinct names are the same, whatever their order, exactly if
/// they are the same map from names to contents.
pub proof fn lemma_same_fields_is_same_map(a: Seq<Field>, b: Seq<Field>)
    requires
        distinct_keys(a),
        distinct_keys(b),
    ensures
        same_fields(a, b) <==> fields_map(a) == fields_map(b),
{
    lemma_lookup_distinct(a);
    lemma_lookup_distinct(b);
    if same_fields(a, b) {
        assert forall|k: Seq<char>| keys(a).to_set().contains(k) implies keys(b).to_set().contains(
            k,
        ) by {
            let j = choose|j: int| 0 <= j < keys(a).len() && keys(a)[j] == k;
            assert(lookup(b, a[j].0) == Some(a[j].1));
            assert(fields_map(b).dom().contains(k));
        }
        vstd::set_lib::lemma_subset_equality(keys(a).to_set(), keys(b).to_set());
        assert forall|k: Seq<char>| fields_map(a).dom().contains(k) implies fields_map(a)[k]
            == fields_map(b)[k] by {
            let j = choose|j: int| 0 <= j < keys(a).len() && keys(a)[j] == k;
            assert(lookup(b, a[j].0) == Some(a[j].1));
        }
        assert(fields_map(a) =~= fields_map(b));
    }
    if fields_map(a) == fields_map(b) {
        assert forall|j: int| 0 <= j < a.len() implies lookup(b, (#[trigger] a[j]).0) == Some(
            a[j].1,
        ) by {
            assert(fields_map(a).dom().contains(a[j].0));
            assert(fields_map(a)[a[j].0] == a[j].1);
        }
    }
}

/// Header fields in the order in which their names were first set. No name
/// occurs twice.
#[derive(Debug, Clone)]
pub struct Headers {
    entries: Vec<(String, String)>,
}

impl View for Headers {
    type V = Map<Seq<char>, Seq<char>>;

    open spec fn view(&self) -> Map<Seq<char>, Seq<char>> {
        fields_map(self.fields())
    }
}

impl Headers {
    /// The fields in their order.
    pub closed spec fn fields(&self) -> Seq<Field> {
        self.entries@.map_values(|e: (String, String)| (e.0@, e.1@))
    }

    /// Whether no name occurs twice, as holds of every value that `new` and
    /// `insert` have made. Of such values `==` says that they are the same
    /// map (`lemma_same_fields_is_same_map`).
    pub open spec fn wf(&self) -> bool {
        distinct_keys(self.fields())
    }

    /// No fields.
    pub fn new() -> (headers: Headers)
        ensures
            headers.fields() == Seq::<Field>::empty(),
            headers.wf(),
    {
        let headers = Headers { entries: Vec::new() };
        assert(headers.fields() =~= Seq::<Field>::empty());
        headers
    }

    /// The number of fields.
    pub fn len(&self) -> (n: usize)
        ensures
            n == self.fields().len(),
    {
        self.entries.len()
    }

    /// Whether there is no field.
    pub fn is_empty(&self) -> (b: bool)
        ensures
            b == (self.fields().len() == 0),
    {
        self.entries.len() == 0
    }

    /// The name and the contents of the field at index `i`.
    pub fn field(&self, i: usize) -> (out: (&str, &str))
        requires
            i < self.fields().len(),
        ensures
            (out.0@, out.1@) == self.fields()[i as int],
    {
        let entry = &self.entries[i];
        (entry.0.as_str(), entry.1.as_str())
    }

    /// The index of the field named `key`, or the number of fields.
    fn position(&self, key: &str) -> (k: usize)
        ensures
            k == find_key(self.fields(), key@, 0),
            k <= self.fields().len(),
    {
        let mut k: usize = 0;
        while k < self.entries.len()
            invariant
                k <= self.entries@.len(),
                self.fields().len() == self.entries@.len(),
                find_key(self.fields(), key@, 0) == find_key(self.fields(), key@, k as int),
            decreases self.entries@.len() - k,
        {
            if str_equals(self.entries[k].0.as_str(), key) {
                return k;
            }
            k = k + 1;
        }
        k
    }

    /// What the field named `key` holds.
    pub fn get(&self, key: &str) -> (value: Option<&str>)
        ensures
            match value {
                Some(text) => lookup(self.fields(), key@) == Some(text@),
                None => lookup(self.fields(), key@) is None,
            },
    {
        let k: usize = self.position(key);
        if k < self.entries.len() {
            Some(self.entries[k].1.as_str())
        } else {
            None
        }
    }

    /// Sets the field named `key` to `value`.
    pub fn insert(&mut self, key: String, value: String)
        ensures
            final(self).fields() == with_field(old(self).fields(), key@, value@),
            old(self).wf() ==> final(self).wf(),
    {
        proof {
            lemma_with_field(self.fields(), key@, value@);
        }
        let k: usize = self.position(key.as_str());
        if k < self.entries.len() {
            self.entries.set(k, (key, value));
        } else {
            self.entries.push((key, value));
        }
        assert(self.fields() =~= with_field(old(self).fields(), key@, value@));
    }
}

impl PartialEq for Headers {
    /// Two sets of fields are equal if they are equally many and every field
    /// of the first is held by the second under the same name: the order
    /// does not count.
    fn eq(&self, other: &Headers) -> (same: bool) {
        if self.entries.len() != other.entries.len() {
            return false;
        }
        let mut i: usize = 0;
        while i < self.entries.len()
            invariant
                i <= self.entries@.len(),
                self.fields().len() == self.entries@.len(),
                self.fields().len() == other.fields().len(),
                forall|j: int|
                    0 <= j < i ==> lookup(other.fields(), (#[trigger] self.fields()[j]).0) == Some(
                        self.fields()[j].1,
                    ),
            decreases self.entries@.len() - i,
        {
            let held = other.get(self.entries[i].0.as_str());
            let same: bool = match held {
                Some(text) => str_equals(text, self.entries[i].1.as_str()),
                None => false,
            };
            if !same {
                assert(lookup(other.fields(), self.fields()[i as int].0) != Some(
                    self.fields()[i as int].1,
                ));
                return false;
            }
            i = i + 1;
        }
        true
    }
}

impl PartialEqSpecImpl for Headers {
    open spec fn obeys_eq_spec() -> bool {
        true
    }

    open spec fn eq_spec(&self, other: &Headers) -> bool {
        same_fields(self.fields(), other.fields())
    }
}

} // verus!
