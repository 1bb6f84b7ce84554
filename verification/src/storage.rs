//! Variable storage: the pluggable key-value store the virtual machine reads
//! conditions from and writes assignments to.

use vstd::prelude::*;

verus! {

use crate::value::YarnValue;

/// The value bound to a name, if any: the most recent binding wins.
pub open spec fn storage_get_spec(entries: Seq<(String, YarnValue)>, name: Seq<char>) -> Option<
    YarnValue,
>
    decreases entries.len(),
{
    if entries.len() == 0 {
        None
    } else if entries[0].0@ == name {
        Some(entries[0].1)
    } else {
        storage_get_spec(entries.subrange(1, entries.len() as int), name)
    }
}

/// An in-memory variable store.  Bindings are kept newest first; setting a
/// variable shadows its earlier binding.
#[derive(Debug)]
pub struct MemoryVariableStorage {
    pub entries: Vec<(String, YarnValue)>,
}

impl MemoryVariableStorage {
    /// An empty store.
    pub fn new() -> (r: Self)
        ensures
            r.entries@.len() == 0,
    {
        MemoryVariableStorage { entries: Vec::new() }
    }

    /// The value bound to a name, if any.
    pub fn get(&self, name: &str) -> (r: Option<YarnValue>)
        ensures
            r == storage_get_spec(self.entries@, name@),
    {
        let n = self.entries.len();
        proof {
            assert(self.entries@.subrange(0, n as int) =~= self.entries@);
        }
        let mut i: usize = 0;
        while i < n
            invariant
                n == self.entries@.len(),
                i <= n,
                storage_get_spec(self.entries@, name@) == storage_get_spec(
                    self.entries@.subrange(i as int, n as int),
                    name@,
                ),
            decreases n - i,
        {
            let ghost tail = self.entries@.subrange(i as int, n as int);
            proof {
                assert(tail[0] == self.entries@[i as int]);
                assert(tail.subrange(1, tail.len() as int) =~= self.entries@.subrange(
                    i + 1,
                    n as int,
                ));
            }
            if crate::util::str_eq(self.entries[i].0.as_str(), name) {
                return Some(self.entries[i].1.clone());
            }
            i += 1;
        }
        None
    }

    /// Binds a value to a name, shadowing any earlier binding.
    pub fn set(&mut self, name: &str, value: YarnValue)
        ensures
            storage_get_spec(final(self).entries@, name@) == Some(value),
            forall|k: Seq<char>| k != name@ ==> #[trigger] storage_get_spec(
                final(self).entries@,
                k,
            ) == storage_get_spec(old(self).entries@, k),
    {
        let ghost before = self.entries@;
        self.entries.insert(0, (name.to_owned(), value));
        proof {
            assert forall|k: Seq<char>| k != name@ implies #[trigger] storage_get_spec(
                self.entries@,
                k,
            ) == storage_get_spec(before, k) by {
                assert(self.entries@.subrange(1, self.entries@.len() as int) =~= before);
            }
            assert(storage_get_spec(self.entries@, name@) == Some(value));
        }
    }

    /// Removes every binding.
    pub fn clear(&mut self)
        ensures
            final(self).entries@.len() == 0,
    {
        self.entries = Vec::new();
    }
}

impl Default for MemoryVariableStorage {
    /// The default store is empty.
    fn default() -> (r: Self)
        ensures
            r.entries@.len() == 0,
    {
        MemoryVariableStorage { entries: Vec::new() }
    }
}

} // verus!
