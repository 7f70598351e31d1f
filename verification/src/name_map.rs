//! A map from names to values, kept as a list of entries in ascending order
//! of their names.
//!
//! Every name occurs at most once, so two maps with the same entries are the
//! same list: equality of maps is equality of their views.

use vstd::prelude::*;

verus! {

/// Lexicographic order on texts: character by character, each character by
/// its code point; a proper prefix comes first.
pub open spec fn text_less(a: Seq<char>, b: Seq<char>) -> bool
    decreases a.len(),
{
    if b.len() == 0 {
        false
    } else if a.len() == 0 {
        true
    } else if a[0] != b[0] {
        (a[0] as int) < (b[0] as int)
    } else {
        text_less(a.drop_first(), b.drop_first())
    }
}

/// No text comes before itself.
pub proof fn lemma_text_less_irreflexive(a: Seq<char>)
    ensures
        !text_less(a, a),
    decreases a.len(),
{
    if a.len() > 0 {
        lemma_text_less_irreflexive(a.drop_first());
    }
}

/// Of two different texts, one comes before the other.
pub proof fn lemma_text_less_connected(a: Seq<char>, b: Seq<char>)
    ensures
        a == b || text_less(a, b) || text_less(b, a),
    decreases a.len(),
{
    if a.len() == 0 || b.len() == 0 {
        if a.len() == 0 && b.len() == 0 {
            assert(a =~= b);
        }
    } else if a[0] == b[0] {
        lemma_text_less_connected(a.drop_first(), b.drop_first());
        if a.drop_first() == b.drop_first() {
            assert(a =~= seq![a[0]] + a.drop_first());
            assert(b =~= seq![b[0]] + b.drop_first());
        }
    }
}

/// The order is transitive.
pub proof fn lemma_text_less_transitive(a: Seq<char>, b: Seq<char>, c: Seq<char>)
    requires
        text_less(a, b),
        text_less(b, c),
    ensures
        text_less(a, c),
    decreases a.len(),
{
    if a.len() > 0 && a[0] == b[0] && b[0] == c[0] {
        lemma_text_less_transitive(a.drop_first(), b.drop_first(), c.drop_first());
    }
}

/// The names of `entries` ascend strictly.
pub open spec fn ascending<V>(entries: Seq<(Seq<char>, V)>) -> bool {
    forall|i: int, j: int|
        0 <= i < j < entries.len() ==> text_less(#[trigger] entries[i].0, #[trigger] entries[j].0)
}

/// Some entry of `entries` is called `name`.
pub open spec fn has_name<V>(entries: Seq<(Seq<char>, V)>, name: Seq<char>) -> bool {
    exists|i: int| 0 <= i < entries.len() && (#[trigger] entries[i]).0 == name
}

/// A position of `entries` at which an entry called `name` stands, where
/// there is one.
pub open spec fn index_of<V>(entries: Seq<(Seq<char>, V)>, name: Seq<char>) -> int {
    choose|i: int| 0 <= i < entries.len() && (#[trigger] entries[i]).0 == name
}

/// The value that `entries` holds under `name`.
pub open spec fn lookup<V>(entries: Seq<(Seq<char>, V)>, name: Seq<char>) -> Option<V> {
    if has_name(entries, name) {
        Some(entries[index_of(entries, name)].1)
    } else {
        None
    }
}

/// The first position at or after `start` whose name does not come before
/// `name`; the length where there is none.
pub open spec fn slot_from<V>(entries: Seq<(Seq<char>, V)>, name: Seq<char>, start: int) -> int
    decreases entries.len() - start,
{
    if start < 0 || start >= entries.len() || !text_less(entries[start].0, name) {
        start
    } else {
        slot_from(entries, name, start + 1)
    }
}

/// Where an entry called `name` stands, or would be put.
pub open spec fn slot<V>(entries: Seq<(Seq<char>, V)>, name: Seq<char>) -> int {
    slot_from(entries, name, 0)
}

/// `entries` with `value` under `name`: in place of the entry of that name
/// where there is one, else at the place that keeps the names ascending.
pub open spec fn inserted<V>(entries: Seq<(Seq<char>, V)>, name: Seq<char>, value: V) -> Seq<
    (Seq<char>, V),
> {
    let at = slot(entries, name);
    if 0 <= at < entries.len() && entries[at].0 == name {
        entries.update(at, (name, value))
    } else {
        entries.insert(at, (name, value))
    }
}

/// `slot_from` stays within the list, and tells the names before it from
/// those after it.
pub proof fn lemma_slot_from<V>(entries: Seq<(Seq<char>, V)>, name: Seq<char>, start: int)
    requires
        0 <= start <= entries.len(),
    ensures
        start <= slot_from(entries, name, start) <= entries.len(),
        forall|i: int|
            start <= i < slot_from(entries, name, start) ==> text_less(
                (#[trigger] entries[i]).0,
                name,
            ),
        slot_from(entries, name, start) < entries.len() ==> !text_less(
            entries[slot_from(entries, name, start)].0,
            name,
        ),
    decreases entries.len() - start,
{
    if start < entries.len() && text_less(entries[start].0, name) {
        lemma_slot_from(entries, name, start + 1);
    }
}

/// In an ascending list a name occurs once.
pub proof fn lemma_ascending_names_differ<V>(entries: Seq<(Seq<char>, V)>, i: int, j: int)
    requires
        ascending(entries),
        0 <= i < entries.len(),
        0 <= j < entries.len(),
        entries[i].0 == entries[j].0,
    ensures
        i == j,
{
    lemma_text_less_irreflexive(entries[i].0);
    if i < j {
        assert(text_less(entries[i].0, entries[j].0));
    } else if j < i {
        assert(text_less(entries[j].0, entries[i].0));
    }
}

/// In an ascending list, the entry found under a name is the one that
/// stands at any position of that name.
pub proof fn lemma_lookup_at<V>(entries: Seq<(Seq<char>, V)>, i: int)
    requires
        ascending(entries),
        0 <= i < entries.len(),
    ensures
        lookup(entries, entries[i].0) == Some(entries[i].1),
{
    let name = entries[i].0;
    assert(has_name(entries, name));
    lemma_ascending_names_differ(entries, index_of(entries, name), i);
}

/// Putting a value into an ascending list leaves it ascending.
pub proof fn lemma_inserted_ascending<V>(entries: Seq<(Seq<char>, V)>, name: Seq<char>, value: V)
    requires
        ascending(entries),
    ensures
        ascending(inserted(entries, name, value)),
{
    let at = slot(entries, name);
    lemma_slot_from(entries, name, 0);
    let out = inserted(entries, name, value);
    if at < entries.len() && entries[at].0 == name {
        assert forall|i: int, j: int| 0 <= i < j < out.len() implies text_less(
            #[trigger] out[i].0,
            #[trigger] out[j].0,
        ) by {
            assert(out[i].0 == entries[i].0);
            assert(out[j].0 == entries[j].0);
        }
    } else {
        assert forall|i: int, j: int| 0 <= i < j < out.len() implies text_less(
            #[trigger] out[i].0,
            #[trigger] out[j].0,
        ) by {
            if at < entries.len() {
                lemma_text_less_connected(entries[at].0, name);
            }
            if j < at {
                assert(out[i] == entries[i] && out[j] == entries[j]);
            } else if j == at {
                assert(out[i] == entries[i]);
            } else if i < at {
                assert(out[i] == entries[i] && out[j] == entries[j - 1]);
                if i < j - 1 {
                } else {
                    assert(text_less(entries[i].0, name));
                    lemma_text_less_transitive(entries[i].0, name, entries[at].0);
                }
            } else if i == at {
                assert(out[j] == entries[j - 1]);
                if at < j - 1 {
                    assert(text_less(entries[at].0, entries[j - 1].0));
                    lemma_text_less_transitive(name, entries[at].0, entries[j - 1].0);
                }
            } else {
                assert(out[i] == entries[i - 1] && out[j] == entries[j - 1]);
            }
        }
    }
}

/// After a value was put under a name of an ascending list, that name holds
/// it, and every other name holds what it held before.
pub proof fn lemma_lookup_inserted<V>(
    entries: Seq<(Seq<char>, V)>,
    name: Seq<char>,
    value: V,
    other: Seq<char>,
)
    requires
        ascending(entries),
    ensures
        lookup(inserted(entries, name, value), other) == if other == name {
            Some(value)
        } else {
            lookup(entries, other)
        },
{
    let at = slot(entries, name);
    lemma_slot_from(entries, name, 0);
    lemma_inserted_ascending(entries, name, value);
    let out = inserted(entries, name, value);
    let replaced = at < entries.len() && entries[at].0 == name;
    assert(out[at] == (name, value));
    if other == name {
        lemma_lookup_at(out, at);
    } else if has_name(entries, other) {
        let k = index_of(entries, other);
        lemma_lookup_at(entries, k);
        if replaced || k < at {
            assert(out[k] == entries[k]);
            lemma_lookup_at(out, k);
        } else {
            assert(out[k + 1] == entries[k]);
            lemma_lookup_at(out, k + 1);
        }
    } else {
        if has_name(out, other) {
            let k = index_of(out, other);
            if replaced || k < at {
                assert(out[k].0 == entries[k].0);
            } else {
                assert(out[k] == entries[k - 1]);
            }
            assert(false);
        }
    }
}

/// `str`'s `<`. Its documentation: strings are compared lexicographically by
/// their byte values, which orders them by the code points of their
/// characters, position by position. The contract says so over the views.
#[verifier::external_body]
fn str_less(a: &str, b: &str) -> (less: bool)
    ensures
        less == text_less(a@, b@),
{
    a < b
}

/// `entries` with each name by its characters.
pub open spec fn named<V>(entries: Seq<(String, V)>) -> Seq<(Seq<char>, V)> {
    Seq::new(entries.len(), |i: int| (entries[i].0@, entries[i].1))
}

/// Whether two strings hold the same characters: neither comes before the
/// other.
pub fn str_same(a: &str, b: &str) -> (same: bool)
    ensures
        same == (a@ == b@),
{
    proof {
        lemma_text_less_irreflexive(a@);
        lemma_text_less_connected(a@, b@);
    }
    !str_less(a, b) && !str_less(b, a)
}

/// The position of `name` in `entries`, or where it would be put.
pub(crate) fn find_slot<V>(entries: &Vec<(String, V)>, name: &str) -> (at: usize)
    ensures
        at == slot(named(entries@), name@),
        at <= entries@.len(),
{
    let mut at: usize = 0;
    while at < entries.len() && str_less(entries[at].0.as_str(), name)
        invariant
            at <= entries.len(),
            slot(named(entries@), name@) == slot_from(named(entries@), name@, at as int),
        decreases entries.len() - at,
    {
        at += 1;
    }
    at
}

/// The value that `entries`, whose names ascend, hold under `name`.
pub(crate) fn get_entry<'a, V>(entries: &'a Vec<(String, V)>, name: &str) -> (found: Option<&'a V>)
    requires
        ascending(named(entries@)),
    ensures
        match found {
            Some(value) => lookup(named(entries@), name@) == Some(*value),
            None => lookup(named(entries@), name@) is None,
        },
{
    let at = find_slot(entries, name);
    let ghost list = named(entries@);
    proof {
        lemma_slot_from(list, name@, 0);
    }
    if at < entries.len() && str_same(entries[at].0.as_str(), name) {
        proof {
            lemma_lookup_at(list, at as int);
        }
        Some(&entries[at].1)
    } else {
        proof {
            if has_name(list, name@) {
                let k = index_of(list, name@);
                lemma_text_less_irreflexive(name@);
                if k < at {
                    assert(text_less(list[k].0, name@));
                } else {
                    assert(text_less(list[at as int].0, list[k].0) || k == at);
                    lemma_text_less_connected(list[at as int].0, name@);
                }
                assert(false);
            }
        }
        None
    }
}

/// Puts `value` under `name` into `entries`, whose names ascend.
pub(crate) fn put_entry<V>(entries: &mut Vec<(String, V)>, name: String, value: V)
    requires
        ascending(named(old(entries)@)),
    ensures
        named(final(entries)@) == inserted(named(old(entries)@), name@, value),
        ascending(named(final(entries)@)),
{
    let at = find_slot(entries, name.as_str());
    let replace = at < entries.len() && str_same(entries[at].0.as_str(), name.as_str());
    let ghost before = named(entries@);
    proof {
        lemma_inserted_ascending(before, name@, value);
    }
    if replace {
        entries.set(at, (name, value));
    } else {
        entries.insert(at, (name, value));
    }
    assert(named(entries@) =~= inserted(before, name@, value));
}

/// A map from names to values: a list of entries whose names ascend.
#[derive(Debug, PartialEq)]
pub struct NameMap<V> {
    pub(crate) entries: Vec<(String, V)>,
}

impl<V> View for NameMap<V> {
    type V = Seq<(Seq<char>, V)>;

    /// The entries in ascending order of their names, each name by its
    /// characters.
    open(crate) spec fn view(&self) -> Seq<(Seq<char>, V)> {
        named(self.entries@)
    }
}

impl<V> NameMap<V> {
    #[verifier::type_invariant]
    pub open(crate) spec fn well_formed(self) -> bool {
        ascending(self@)
    }

    /// The empty map.
    pub fn new() -> (map: Self)
        ensures
            map@ == Seq::<(Seq<char>, V)>::empty(),
    {
        let map = NameMap { entries: Vec::new() };
        assert(map@ =~= Seq::<(Seq<char>, V)>::empty());
        map
    }

    /// The map of `entries`, whose names ascend.
    pub(crate) fn from_ascending(entries: Vec<(String, V)>) -> (map: Self)
        requires
            ascending(named(entries@)),
        ensures
            map@ == named(entries@),
    {
        NameMap { entries }
    }

    /// The number of entries.
    pub fn len(&self) -> (n: usize)
        ensures
            n == self@.len(),
    {
        self.entries.len()
    }

    /// Whether the map has no entry.
    pub fn is_empty(&self) -> (empty: bool)
        ensures
            empty == (self@.len() == 0),
    {
        self.entries.len() == 0
    }

    /// The name of the entry at `index`, counted in ascending order.
    pub fn name_at(&self, index: usize) -> (name: &String)
        requires
            index < self@.len(),
        ensures
            name@ == self@[index as int].0,
    {
        &self.entries[index].0
    }

    /// The value of the entry at `index`, counted in ascending order.
    pub fn value_at(&self, index: usize) -> (value: &V)
        requires
            index < self@.len(),
        ensures
            *value == self@[index as int].1,
    {
        &self.entries[index].1
    }

    /// The value under `name`, if there is one.
    pub fn get(&self, name: &str) -> (found: Option<&V>)
        ensures
            match found {
                Some(value) => lookup(self@, name@) == Some(*value),
                None => lookup(self@, name@) is None,
            },
    {
        proof {
            use_type_invariant(self);
        }
        get_entry(&self.entries, name)
    }

    /// Whether there is an entry under `name`.
    pub fn contains_key(&self, name: &str) -> (present: bool)
        ensures
            present == has_name(self@, name@),
    {
        self.get(name).is_some()
    }

    /// Puts `value` under `name`, in place of what the name held before.
    /// Afterwards `name` holds `value`, and every other name holds what it
    /// held.
    pub fn insert(&mut self, name: String, value: V)
        ensures
            final(self)@ == inserted(old(self)@, name@, value),
            lookup(final(self)@, name@) == Some(value),
            forall|other: Seq<char>|
                other != name@ ==> #[trigger] lookup(final(self)@, other) == lookup(
                    old(self)@,
                    other,
                ),
    {
        proof {
            use_type_invariant(&*self);
            lemma_lookup_inserted(self@, name@, value, name@);
            assert forall|other: Seq<char>| other != name@ implies #[trigger] lookup(
                inserted(self@, name@, value),
                other,
            ) == lookup(self@, other) by {
                lemma_lookup_inserted(self@, name@, value, other);
            }
        }
        let mut entries: Vec<(String, V)> = Vec::new();
        core::mem::swap(&mut self.entries, &mut entries);
        put_entry(&mut entries, name, value);
        core::mem::swap(&mut self.entries, &mut entries);
    }
}

/// A value of a map is smaller than the map: recursion that goes from a map
/// to its values ends.
pub proof fn lemma_value_decreases<V>(map: NameMap<V>, i: int)
    requires
        0 <= i < map@.len(),
    ensures
        decreases_to!(map => map@[i].1),
{
    assert(decreases_to!(map => map.entries));
    assert(decreases_to!(map.entries => map.entries@));
    assert(decreases_to!(map.entries@ => map.entries@[i]));
    assert(map@[i].1 == map.entries@[i].1);
}

impl<V: Clone> Clone for NameMap<V> {
    /// A map with the same names, each with a clone of its value.
    fn clone(&self) -> (copy: Self)
        ensures
            copy@.len() == self@.len(),
            forall|i: int|
                0 <= i < self@.len() ==> (#[trigger] copy@[i]).0 == self@[i].0 && cloned(
                    self@[i].1,
                    copy@[i].1,
                ),
    {
        let mut entries: Vec<(String, V)> = Vec::new();
        let mut i: usize = 0;
        while i < self.entries.len()
            invariant
                i <= self.entries.len(),
                entries.len() == i,
                forall|k: int|
                    0 <= k < i ==> (#[trigger] entries@[k]).0@ == self.entries@[k].0@ && cloned(
                        self.entries@[k].1,
                        entries@[k].1,
                    ),
            decreases self.entries.len() - i,
        {
            let value = self.entries[i].1.clone();
            entries.push((self.entries[i].0.clone(), value));
            i += 1;
        }
        proof {
            use_type_invariant(self);
            assert forall|i: int, j: int| 0 <= i < j < entries@.len() implies text_less(
                #[trigger] named(entries@)[i].0,
                #[trigger] named(entries@)[j].0,
            ) by {
                assert(named(entries@)[i].0 == entries@[i].0@);
                assert(named(entries@)[j].0 == entries@[j].0@);
                assert(text_less(self@[i].0, self@[j].0));
            }
        }
        let copy = NameMap::from_ascending(entries);
        proof {
            assert forall|i: int| 0 <= i < self@.len() implies (#[trigger] copy@[i]).0 == self@[i].0
                && cloned(self@[i].1, copy@[i].1) by {
                assert(entries@[i].0@ == self.entries@[i].0@);
            }
        }
        copy
    }
}

impl<V> Default for NameMap<V> {
    /// The empty map.
    fn default() -> (map: Self)
        ensures
            map@ == Seq::<(Seq<char>, V)>::empty(),
    {
        NameMap::new()
    }
}

} // verus!
