//! The variable store: a key-value map from variable names to values,
//! owned by the host and written through by the virtual machine.

use vstd::prelude::*;
use crate::text::str_eq;
use crate::value::Value;

verus! {

/// Looks a name up in store entries; the first binding wins and names are
/// kept unique.
pub open spec fn store_lookup(entries: Seq<(String, Value)>, name: Seq<char>) -> Option<Value>
    decreases entries.len(),
{
    if entries.len() == 0 {
        None
    } else if entries[0].0@ == name {
        Some(entries[0].1)
    } else {
        store_lookup(entries.drop_first(), name)
    }
}

/// An in-memory variable store, iterable and persistable.
#[derive(Clone, Debug)]
pub struct MemoryVariableStore {
    /// The bindings, each name at most once.
    pub entries: Vec<(String, Value)>,
}

impl MemoryVariableStore {
    /// Creates an empty store.
    pub fn new() -> (r: Self)
        ensures
            r.entries@.len() == 0,
    {
        MemoryVariableStore { entries: Vec::new() }
    }

    /// Reads a variable's value.
    pub fn get(&self, name: &str) -> (r: Option<&Value>)
        ensures
            match r {
                Some(v) => store_lookup(self.entries@, name@) == Some(*v),
                None => store_lookup(self.entries@, name@) is None,
            },
    {
        let mut i: usize = 0;
        proof {
            assert(self.entries@.subrange(0, self.entries@.len() as int) =~= self.entries@);
        }
        while i < self.entries.len()
            invariant
                i <= self.entries@.len(),
                store_lookup(self.entries@, name@) == store_lookup(
                    self.entries@.subrange(i as int, self.entries@.len() as int),
                    name@,
                ),
            decreases self.entries@.len() - i,
        {
            proof {
                let rest = self.entries@.subrange(i as int, self.entries@.len() as int);
                assert(rest[0] == self.entries@[i as int]);
                assert(rest.drop_first() =~= self.entries@.subrange(
                    i + 1,
                    self.entries@.len() as int,
                ));
            }
            if str_eq(self.entries[i].0.as_str(), name) {
                return Some(&self.entries[i].1);
            }
            i += 1;
        }
        proof {
            assert(self.entries@.subrange(self.entries@.len() as int, self.entries@.len() as int)
                =~= Seq::<(String, Value)>::empty());
        }
        None
    }

    /// Writes a variable: replaces its binding or adds one. Afterwards the
    /// variable reads back as the given value and every other variable is
    /// unchanged.
    #[verifier::loop_isolation(false)]
    pub fn set(&mut self, name: String, value: Value)
        ensures
            store_lookup(final(self).entries@, name@) == Some(value),
            forall|other: Seq<char>|
                other != name@ ==> store_lookup(final(self).entries@, other) == store_lookup(
                    old(self).entries@,
                    other,
                ),
    {
        let mut i: usize = 0;
        while i < self.entries.len()
            invariant
                i <= self.entries@.len(),
                self.entries@ == old(self).entries@,
                forall|j: int| 0 <= j < i ==> (#[trigger] self.entries@[j]).0@ != name@,
            decreases self.entries@.len() - i,
        {
            if str_eq(self.entries[i].0.as_str(), name.as_str()) {
                let ghost before = self.entries@;
                self.entries.set(i, (name, value));
                proof {
                    lemma_store_update(before, self.entries@, i as int, name@, value);
                }
                return ;
            }
            i += 1;
        }
        let ghost before = self.entries@;
        let ghost entry = (name, value);
        self.entries.push((name, value));
        proof {
            lemma_store_append(before, entry);
        }
    }

    /// The number of bindings.
    pub fn len(&self) -> (r: usize)
        ensures
            r == self.entries@.len(),
    {
        self.entries.len()
    }
}

proof fn lemma_store_update(
    before: Seq<(String, Value)>,
    after: Seq<(String, Value)>,
    i: int,
    name: Seq<char>,
    value: Value,
)
    requires
        0 <= i < before.len(),
        after.len() == before.len(),
        after[i].0@ == name && after[i].1 == value,
        forall|j: int| 0 <= j < before.len() && j != i ==> after[j] == before[j],
        forall|j: int| 0 <= j < i ==> (#[trigger] before[j]).0@ != name,
        before[i].0@ == name,
    ensures
        store_lookup(after, name) == Some(value),
        forall|other: Seq<char>|
            other != name ==> store_lookup(after, other) == store_lookup(before, other),
    decreases before.len(),
{
    if i == 0 {
        assert(before.len() > 0);
        assert forall|other: Seq<char>| other != name implies store_lookup(after, other)
            == store_lookup(before, other) by {
            assert(after.drop_first() =~= before.drop_first());
        }
    } else {
        assert(after[0] == before[0]);
        assert(before[0].0@ != name);
        assert forall|j: int| 0 <= j < i - 1 implies (#[trigger] before.drop_first()[j]).0@
            != name by {
            assert(before.drop_first()[j] == before[j + 1]);
        }
        assert forall|j: int|
            0 <= j < before.drop_first().len() && j != i - 1 implies #[trigger] after.drop_first()[j]
            == before.drop_first()[j] by {
            assert(after.drop_first()[j] == after[j + 1]);
            assert(before.drop_first()[j] == before[j + 1]);
        }
        assert(after.drop_first()[i - 1] == after[i]);
        assert(before.drop_first()[i - 1] == before[i]);
        lemma_store_update(before.drop_first(), after.drop_first(), i - 1, name, value);
        assert forall|other: Seq<char>| other != name implies store_lookup(after, other)
            == store_lookup(before, other) by {
            assert(store_lookup(after.drop_first(), other) == store_lookup(
                before.drop_first(),
                other,
            ));
        }
    }
}

proof fn lemma_store_append(before: Seq<(String, Value)>, entry: (String, Value))
    requires
        forall|j: int| 0 <= j < before.len() ==> (#[trigger] before[j]).0@ != entry.0@,
    ensures
        store_lookup(before.push(entry), entry.0@) == Some(entry.1),
        forall|other: Seq<char>|
            other != entry.0@ ==> store_lookup(before.push(entry), other) == store_lookup(
                before,
                other,
            ),
    decreases before.len(),
{
    let appended = before.push(entry);
    if before.len() == 0 {
        assert(appended[0] == entry);
        assert(appended.drop_first() =~= before);
    } else {
        assert(appended[0] == before[0]);
        assert(appended.drop_first() =~= before.drop_first().push(entry));
        assert forall|j: int| 0 <= j < before.drop_first().len() implies (
        #[trigger] before.drop_first()[j]).0@ != entry.0@ by {
            assert(before.drop_first()[j] == before[j + 1]);
        }
        lemma_store_append(before.drop_first(), entry);
        assert forall|other: Seq<char>| other != entry.0@ implies store_lookup(appended, other)
            == store_lookup(before, other) by {
            assert(store_lookup(before.drop_first().push(entry), other) == store_lookup(
                before.drop_first(),
                other,
            ));
        }
    }
}

} // verus!
