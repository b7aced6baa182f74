//! Association lists: values filed under names, looked up by the first entry with a name.
use vstd::prelude::*;

use crate::text::same_text;

verus! {

/// The value registered under `name`, if any: the first entry with that name.
pub open spec fn lookup<T>(entries: Seq<(String, T)>, name: Seq<char>) -> Option<T>
    decreases entries.len(),
{
    if entries.len() == 0 {
        None
    } else if entries[0].0@ == name {
        Some(entries[0].1)
    } else {
        lookup(entries.drop_first(), name)
    }
}

/// The names of the entries, in order.
pub open spec fn entry_names<T>(entries: Seq<(String, T)>) -> Seq<Seq<char>> {
    entries.map_values(|e: (String, T)| e.0@)
}

/// The first entry, in order, that `pred` holds of.
pub open spec fn first_where<T>(entries: Seq<(String, T)>, pred: spec_fn((String, T)) -> bool) -> Option<T>
    decreases entries.len(),
{
    if entries.len() == 0 {
        None
    } else if pred(entries[0]) {
        Some(entries[0].1)
    } else {
        first_where(entries.drop_first(), pred)
    }
}

/// No name occurs twice, and each entry is filed under its value's own name.
pub open spec fn well_filed<T>(entries: Seq<(String, T)>, name_of: spec_fn(T) -> Seq<char>) -> bool {
    &&& forall|i: int, j: int|
        0 <= i < j < entries.len() ==> #[trigger] entries[i].0@ != #[trigger] entries[j].0@
    &&& forall|i: int| 0 <= i < entries.len() ==> #[trigger] entries[i].0@ == name_of(entries[i].1)
}

/// Looking up a name that the entries do not hold finds nothing; looking up a held name
/// finds the entry at its position.
pub proof fn lemma_lookup_index<T>(entries: Seq<(String, T)>, name: Seq<char>, k: int)
    requires
        0 <= k < entries.len(),
        entries[k].0@ == name,
        forall|j: int| 0 <= j < k ==> #[trigger] entries[j].0@ != name,
    ensures
        lookup(entries, name) == Some(entries[k].1),
    decreases k,
{
    if k > 0 {
        lemma_lookup_index(entries.drop_first(), name, k - 1);
    }
}

pub proof fn lemma_lookup_absent<T>(entries: Seq<(String, T)>, name: Seq<char>)
    requires
        forall|j: int| 0 <= j < entries.len() ==> #[trigger] entries[j].0@ != name,
    ensures
        lookup(entries, name) is None,
    decreases entries.len(),
{
    if entries.len() > 0 {
        lemma_lookup_absent(entries.drop_first(), name);
    }
}

/// Where the entry at `k` is replaced by one with the same name, lookups of that name find
/// the new value and all other lookups are unchanged; with distinct names.
proof fn lemma_lookup_update<T>(entries: Seq<(String, T)>, k: int, e: (String, T), name: Seq<char>)
    requires
        0 <= k < entries.len(),
        entries[k].0@ == e.0@,
        forall|i: int, j: int|
            0 <= i < j < entries.len() ==> #[trigger] entries[i].0@ != #[trigger] entries[j].0@,
    ensures
        lookup(entries.update(k, e), name) == if name == e.0@ {
            Some(e.1)
        } else {
            lookup(entries, name)
        },
    decreases entries.len(),
{
    if k > 0 {
        assert(entries.update(k, e).drop_first() =~= entries.drop_first().update(k - 1, e));
        lemma_lookup_update(entries.drop_first(), k - 1, e, name);
    } else {
        if name != e.0@ {
            assert(entries.update(k, e).drop_first() =~= entries.drop_first());
        }
    }
}

/// Appending an entry under a new name leaves all other lookups unchanged.
proof fn lemma_lookup_push<T>(entries: Seq<(String, T)>, e: (String, T), name: Seq<char>)
    requires
        forall|j: int| 0 <= j < entries.len() ==> #[trigger] entries[j].0@ != e.0@,
    ensures
        lookup(entries.push(e), name) == if name == e.0@ {
            Some(e.1)
        } else {
            lookup(entries, name)
        },
    decreases entries.len(),
{
    if entries.len() > 0 {
        assert(entries.push(e).drop_first() =~= entries.drop_first().push(e));
        lemma_lookup_push(entries.drop_first(), e, name);
    } else if name == e.0@ {
    } else {
        assert(entries.push(e).drop_first() =~= Seq::<(String, T)>::empty());
        assert(lookup(Seq::<(String, T)>::empty(), name) is None);
    }
}

/// The position of the entry filed under `name`, if there is one.
pub fn position<T>(entries: &Vec<(String, T)>, name: &str) -> (r: Option<usize>)
    ensures
        match r {
            Some(k) => k < entries@.len() && entries@[k as int].0@ == name@ && forall|j: int|
                0 <= j < k ==> #[trigger] entries@[j].0@ != name@,
            None => forall|j: int| 0 <= j < entries@.len() ==> #[trigger] entries@[j].0@ != name@,
        },
{
    let mut i: usize = 0;
    while i < entries.len()
        invariant
            i <= entries.len(),
            forall|j: int| 0 <= j < i ==> #[trigger] entries@[j].0@ != name@,
        decreases entries.len() - i,
    {
        if same_text(entries[i].0.as_str(), name) {
            return Some(i);
        }
        i = i + 1;
    }
    None
}

/// Files `value` under `name` in `entries`: replaces the entry with that name, or appends one.
pub fn file_under<T>(entries: &mut Vec<(String, T)>, name: String, value: T)
    requires
        forall|i: int, j: int|
            0 <= i < j < old(entries)@.len() ==> #[trigger] old(entries)@[i].0@ != #[trigger] old(entries)@[j].0@,
    ensures
        forall|i: int, j: int|
            0 <= i < j < final(entries)@.len() ==> #[trigger] final(entries)@[i].0@ != #[trigger] final(entries)@[j].0@,
        forall|n: Seq<char>|
            #[trigger] lookup(final(entries)@, n) == if n == name@ {
                Some(value)
            } else {
                lookup(old(entries)@, n)
            },
        entry_names(final(entries)@) == if entry_names(old(entries)@).contains(name@) {
            entry_names(old(entries)@)
        } else {
            entry_names(old(entries)@).push(name@)
        },
        forall|k: int|
            0 <= k < final(entries)@.len() ==> (#[trigger] final(entries)@[k] == (name, value))
                || (k < old(entries)@.len() && final(entries)@[k] == old(entries)@[k]),
        final(entries)@.len() >= old(entries)@.len(),
{
    let ghost before = entries@;
    match position(entries, name.as_str()) {
        Some(k) => {
            let ghost e = (name, value);
            entries.set(k, (name, value));
            proof {
                assert forall|n: Seq<char>| #[trigger] lookup(entries@, n) == if n == e.0@ { Some(e.1) } else { lookup(before, n) } by {
                    lemma_lookup_update(before, k as int, e, n);
                }
                assert(entry_names(before)[k as int] == e.0@);
                assert(entry_names(before).contains(e.0@));
                assert(entry_names(entries@) =~= entry_names(before));
            }
        },
        None => {
            let ghost e = (name, value);
            entries.push((name, value));
            proof {
                assert forall|n: Seq<char>| #[trigger] lookup(entries@, n) == if n == e.0@ { Some(e.1) } else { lookup(before, n) } by {
                    lemma_lookup_push(before, e, n);
                }
                assert(!entry_names(before).contains(e.0@)) by {
                    if entry_names(before).contains(e.0@) {
                        let j = choose|j: int| 0 <= j < entry_names(before).len() && entry_names(before)[j] == e.0@;
                        assert(before[j].0@ == e.0@);
                    }
                }
                assert(entry_names(entries@) =~= entry_names(before).push(e.0@));
            }
        },
    }
}

/// The value filed under `name`, the first one if there are several.
pub fn lookup_name<'a, T>(entries: &'a Vec<(String, T)>, name: &str) -> (r: Option<&'a T>)
    ensures
        match r {
            Some(v) => lookup(entries@, name@) == Some(*v),
            None => lookup(entries@, name@) is None,
        },
{
    match position(entries, name) {
        Some(k) => {
            proof {
                lemma_lookup_index(entries@, name@, k as int);
            }
            Some(&entries[k].1)
        },
        None => {
            proof {
                lemma_lookup_absent(entries@, name@);
            }
            None
        },
    }
}

} // verus!
