//! Tables that are keyed by text and hold no key twice.

use core::marker::PhantomData;
use vstd::prelude::*;

use crate::path::{path_identity, same_path};

verus! {

/// When two texts are the same key.
pub trait TableKey: Sized {
    /// What keys are told apart by.
    type Id;

    /// The identity of the key that is written as `text`.
    spec fn id(text: Seq<char>) -> Self::Id;

    /// Whether two texts are the same key.
    fn same(left: &str, right: &str) -> (res: bool)
        ensures
            res == (Self::id(left@) == Self::id(right@)),
    ;
}

/// Keys that are names: every text is a key of its own.
pub struct NameKey;

/// Keys that are paths: paths with the same components are the same key.
pub struct PathKey;

impl TableKey for NameKey {
    type Id = Seq<char>;

    open spec fn id(text: Seq<char>) -> Seq<char> {
        text
    }

    fn same(left: &str, right: &str) -> (res: bool) {
        left.to_owned() == right.to_owned()
    }
}

impl TableKey for PathKey {
    type Id = Seq<Seq<char>>;

    open spec fn id(text: Seq<char>) -> Seq<Seq<char>> {
        path_identity(text)
    }

    fn same(left: &str, right: &str) -> (res: bool) {
        same_path(left, right)
    }
}

/// A table from keys to values. A key stays written as it was when it was entered first.
pub struct Table<K: TableKey, V> {
    entries: Vec<(String, V)>,
    key: PhantomData<K>,
}

/// The table of `entries`: under each key the text that it is written as, and its value.
pub open spec fn table_of<K: TableKey, V>(entries: Seq<(String, V)>) -> Map<K::Id, (Seq<char>, V)>
    decreases entries.len(),
{
    if entries.len() == 0 {
        Map::empty()
    } else {
        table_of::<K, V>(entries.drop_last()).insert(
            K::id(entries.last().0@),
            (entries.last().0@, entries.last().1),
        )
    }
}

/// Whether no two of `entries` have the same key.
pub open spec fn keys_differ<K: TableKey, V>(entries: Seq<(String, V)>) -> bool {
    forall|i: int, j: int|
        0 <= i < j < entries.len() ==> K::id(#[trigger] entries[i].0@) != K::id(
            #[trigger] entries[j].0@,
        )
}

/// `table` after `value` was entered under the key that is written as `text`.
pub open spec fn entered<K: TableKey, V>(
    table: Map<K::Id, (Seq<char>, V)>,
    text: Seq<char>,
    value: V,
) -> Map<K::Id, (Seq<char>, V)> {
    let id = K::id(text);
    table.insert(
        id,
        (if table.contains_key(id) {
            table[id].0
        } else {
            text
        }, value),
    )
}

impl<K: TableKey, V> View for Table<K, V> {
    type V = Map<K::Id, (Seq<char>, V)>;

    closed spec fn view(&self) -> Map<K::Id, (Seq<char>, V)> {
        table_of::<K, V>(self.entries@)
    }
}

/// A table holds exactly its entries.
pub proof fn lemma_table_of<K: TableKey, V>(entries: Seq<(String, V)>)
    requires
        keys_differ::<K, V>(entries),
    ensures
        forall|i: int|
            0 <= i < entries.len() ==> {
                let id = K::id((#[trigger] entries[i]).0@);
                &&& table_of::<K, V>(entries).contains_key(id)
                &&& table_of::<K, V>(entries)[id] == (entries[i].0@, entries[i].1)
            },
        forall|id: K::Id| #[trigger]
            table_of::<K, V>(entries).contains_key(id) ==> exists|i: int|
                0 <= i < entries.len() && K::id((#[trigger] entries[i]).0@) == id,
    decreases entries.len(),
{
    if entries.len() > 0 {
        let front = entries.drop_last();
        lemma_table_of::<K, V>(front);
        assert forall|i: int| 0 <= i < entries.len() implies {
            let id = K::id((#[trigger] entries[i]).0@);
            &&& table_of::<K, V>(entries).contains_key(id)
            &&& table_of::<K, V>(entries)[id] == (entries[i].0@, entries[i].1)
        } by {
            if i < front.len() {
                assert(front[i] == entries[i]);
            }
        }
        assert forall|id: K::Id| #[trigger]
            table_of::<K, V>(entries).contains_key(id) implies exists|i: int|
            0 <= i < entries.len() && K::id((#[trigger] entries[i]).0@) == id by {
            if id == K::id(entries.last().0@) {
                assert(K::id(entries[entries.len() - 1].0@) == id);
            } else {
                assert(table_of::<K, V>(front).contains_key(id));
                let i = choose|i: int|
                    0 <= i < front.len() && K::id((#[trigger] front[i]).0@) == id;
                assert(entries[i] == front[i]);
            }
        }
    }
}

/// Changing the value of one entry changes the table under that key alone.
proof fn lemma_update<K: TableKey, V>(entries: Seq<(String, V)>, at: int, value: V)
    requires
        keys_differ::<K, V>(entries),
        0 <= at < entries.len(),
    ensures
        table_of::<K, V>(entries.update(at, (entries[at].0, value))) == table_of::<K, V>(
            entries,
        ).insert(K::id(entries[at].0@), (entries[at].0@, value)),
    decreases entries.len(),
{
    let front = entries.drop_last();
    let updated = entries.update(at, (entries[at].0, value));
    if at < front.len() {
        lemma_update::<K, V>(front, at, value);
        assert(updated.drop_last() == front.update(at, (front[at].0, value)));
        assert(K::id(entries[at].0@) != K::id(entries[entries.len() - 1].0@));
        assert(table_of::<K, V>(updated) =~= table_of::<K, V>(entries).insert(
            K::id(entries[at].0@),
            (entries[at].0@, value),
        ));
    } else {
        assert(updated.drop_last() == front);
        assert(table_of::<K, V>(updated) =~= table_of::<K, V>(entries).insert(
            K::id(entries[at].0@),
            (entries[at].0@, value),
        ));
    }
}

impl<K: TableKey, V> Table<K, V> {
    #[verifier::type_invariant]
    spec fn no_key_twice(self) -> bool {
        keys_differ::<K, V>(self.entries@)
    }

    /// A table without entries.
    pub fn new() -> (res: Self)
        ensures
            res@ == Map::<K::Id, (Seq<char>, V)>::empty(),
    {
        Table { entries: Vec::new(), key: PhantomData }
    }

    /// Where the key that is written as `text` stands among the entries.
    fn position(&self, text: &str) -> (res: Option<usize>)
        ensures
            res is Some <==> self@.contains_key(K::id(text@)),
            res matches Some(i) ==> i < self.entries@.len() && K::id(self.entries@[i as int].0@)
                == K::id(text@),
    {
        proof {
            use_type_invariant(self);
            lemma_table_of::<K, V>(self.entries@);
        }
        let mut i: usize = 0;
        while i < self.entries.len()
            invariant
                i <= self.entries@.len(),
                forall|j: int| 0 <= j < i ==> K::id((#[trigger] self.entries@[j]).0@) != K::id(text@),
                forall|i: int|
                    0 <= i < self.entries@.len() ==> self@.contains_key(
                        K::id((#[trigger] self.entries@[i]).0@),
                    ),
            decreases self.entries@.len() - i,
        {
            if K::same(&self.entries[i].0, text) {
                return Some(i);
            }
            i += 1;
        }
        None
    }

    /// The value under the key that is written as `text`.
    pub fn get(&self, text: &str) -> (res: Option<&V>)
        ensures
            res is Some <==> self@.contains_key(K::id(text@)),
            res matches Some(value) ==> *value == self@[K::id(text@)].1,
    {
        proof {
            use_type_invariant(self);
            lemma_table_of::<K, V>(self.entries@);
        }
        match self.position(text) {
            Some(i) => Some(&self.entries[i].1),
            None => None,
        }
    }

    /// The entries, each key once.
    pub fn entries(&self) -> (res: &Vec<(String, V)>)
        ensures
            keys_differ::<K, V>(res@),
            table_of::<K, V>(res@) == self@,
    {
        proof {
            use_type_invariant(self);
        }
        &self.entries
    }

    /// Enters `value` under the key that is written as `text`, and hands back the value that stood
    /// there.
    pub fn insert(&mut self, text: String, value: V) -> (res: Option<V>)
        ensures
            final(self)@ == entered::<K, V>(old(self)@, text@, value),
            res == if old(self)@.contains_key(K::id(text@)) {
                Some(old(self)@[K::id(text@)].1)
            } else {
                None
            },
    {
        proof {
            use_type_invariant(&*self);
            lemma_table_of::<K, V>(self.entries@);
        }
        let found = self.position(&text);
        let mut entries: Vec<(String, V)> = Vec::new();
        std::mem::swap(&mut entries, &mut self.entries);
        let res = match found {
            Some(i) => {
                proof {
                    lemma_update::<K, V>(entries@, i as int, value);
                }
                let mut value = value;
                std::mem::swap(&mut value, &mut entries[i].1);
                Some(value)
            },
            None => {
                proof {
                    assert(entries@.push((text, value)).drop_last() == entries@);
                }
                entries.push((text, value));
                None
            },
        };
        self.entries = entries;
        res
    }
}

/// A table that was just made holds nothing.
pub proof fn law_new_table_is_empty<K: TableKey, V>(
    table: Table<K, V>,
    text: &str,
    found: Option<&V>,
)
    requires
        call_ensures(Table::<K, V>::new, (), table),
        call_ensures(Table::<K, V>::get, (&table, text), found),
    ensures
        found is None,
{
}

/// What was entered is found under its key, however that is written; under every other key there is
/// found what was found before. Entering hands back what was found under the key before.
pub proof fn law_entered_value_is_found<K: TableKey, V>(
    table: &mut Table<K, V>,
    text: String,
    value: V,
    replaced: Option<V>,
    other: &str,
    before: Option<&V>,
    after: Option<&V>,
)
    requires
        call_ensures(Table::<K, V>::insert, (table, text, value), replaced),
        call_ensures(Table::<K, V>::get, (&*old(table), other), before),
        call_ensures(Table::<K, V>::get, (&*final(table), other), after),
    ensures
        K::id(other@) == K::id(text@) ==> after == Some(&value),
        K::id(other@) != K::id(text@) ==> after == before,
        K::id(other@) == K::id(text@) ==> match before {
            Some(old_value) => replaced == Some(*old_value),
            None => replaced is None,
        },
{
}

/// The entries of a table are what can be found in it: each key stands there once, with the value
/// that is found under it, and no key that is found is missing.
pub proof fn law_entries_are_what_is_found<K: TableKey, V>(
    table: &Table<K, V>,
    entries: &Vec<(String, V)>,
    text: &str,
    found: Option<&V>,
)
    requires
        call_ensures(Table::<K, V>::entries, (table,), entries),
        call_ensures(Table::<K, V>::get, (table, text), found),
    ensures
        forall|i: int, j: int|
            0 <= i < j < entries@.len() ==> K::id((#[trigger] entries@[i]).0@) != K::id(
                (#[trigger] entries@[j]).0@,
            ),
        forall|i: int|
            0 <= i < entries@.len() && K::id((#[trigger] entries@[i]).0@) == K::id(text@) ==> found
                == Some(&entries@[i].1),
        found is Some ==> exists|i: int|
            0 <= i < entries@.len() && K::id((#[trigger] entries@[i]).0@) == K::id(text@),
        forall|i: int|
            0 <= i < entries@.len() ==> table@.contains_key(K::id((#[trigger] entries@[i]).0@))
                && table@[K::id(entries@[i].0@)].0 == entries@[i].0@,
{
    lemma_table_of::<K, V>(entries@);
}

/// A key stays written as it was first, and no other key is rewritten.
pub proof fn law_key_stays_as_written<K: TableKey, V>(
    table: Map<K::Id, (Seq<char>, V)>,
    text: Seq<char>,
    value: V,
    other: K::Id,
)
    ensures
        entered::<K, V>(table, text, value).contains_key(other) <==> table.contains_key(other)
            || other == K::id(text),
        table.contains_key(other) ==> entered::<K, V>(table, text, value)[other].0
            == table[other].0,
        !table.contains_key(K::id(text)) ==> entered::<K, V>(table, text, value)[K::id(text)].0
            == text,
        entered::<K, V>(table, text, value)[K::id(text)].1 == value,
        table.contains_key(other) && other != K::id(text) ==> entered::<K, V>(
            table,
            text,
            value,
        )[other] == table[other],
{
}

/// Two names are the same key only if they are the same text.
pub proof fn law_names_are_keys_of_their_own(left: &str, right: &str, res: bool)
    requires
        call_ensures(<NameKey as TableKey>::same, (left, right), res),
    ensures
        res <==> left@ == right@,
        NameKey::id(left@) == NameKey::id(right@) <==> left@ == right@,
{
}

/// Two paths are the same key if they have the same identity as paths.
pub proof fn law_paths_are_keys_by_identity(left: &str, right: &str, res: bool)
    requires
        call_ensures(<PathKey as TableKey>::same, (left, right), res),
    ensures
        res <==> path_identity(left@) == path_identity(right@),
        PathKey::id(left@) == PathKey::id(right@) <==> path_identity(left@) == path_identity(
            right@,
        ),
{
}

} // verus!
