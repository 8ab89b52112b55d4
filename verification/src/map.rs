//! Dispatch table of mappings.

use vstd::prelude::*;
use crate::error::ReflectError;
use crate::table::TableKind;
use crate::value::{Value, ValueView, lemma_pair_views, pair_views};

verus! {

/// The operations of a mapping, for one key type and one value type.
#[derive(Clone, Copy, Debug, PartialEq, Eq, Structural)]
pub struct HMVtable {
    pub kind: TableKind,
}

/// Makes the table of a live mapping.
#[derive(Clone, Copy, Debug)]
pub struct HMVtableCreator {}

/// Makes the table of a mapping that is marked to be skipped.
#[derive(Clone, Copy, Debug)]
pub struct EmptyHMVtableCreator {}

impl HMVtableCreator {
    /// The table of a live mapping.
    pub fn vtable() -> (t: HMVtable)
        ensures
            t.kind == TableKind::Live,
    {
        HMVtable { kind: TableKind::Live }
    }
}

impl EmptyHMVtableCreator {
    /// The table of a skipped mapping.
    pub fn vtable() -> (t: HMVtable)
        ensures
            t.kind == TableKind::Skip,
    {
        HMVtable { kind: TableKind::Skip }
    }
}

/// No key of the entry list occurs twice.
pub open spec fn distinct_keys(entries: Seq<(ValueView, ValueView)>) -> bool {
    forall|i: int, j: int| 0 <= i < j < entries.len() ==> entries[i].0 != entries[j].0
}

/// The first index from `from` on whose entry has the key `k`, or the
/// list's length where there is none.
pub open spec fn key_index(entries: Seq<(ValueView, ValueView)>, k: ValueView, from: int) -> int
    decreases entries.len() - from,
{
    if from < 0 || from >= entries.len() {
        entries.len() as int
    } else if entries[from].0 == k {
        from
    } else {
        key_index(entries, k, from + 1)
    }
}

/// The mapping after an insertion: the entry of the key gets the new
/// value and keeps its place; a new key goes to the end.
pub open spec fn map_insert(entries: Seq<(ValueView, ValueView)>, k: ValueView, v: ValueView) -> Seq<
    (ValueView, ValueView),
> {
    let i = key_index(entries, k, 0);
    if i < entries.len() {
        entries.update(i, (k, v))
    } else {
        entries.push((k, v))
    }
}

/// Where the scan for a key ends: at an entry with that key and past none, or at the end.
pub proof fn lemma_key_index(entries: Seq<(ValueView, ValueView)>, k: ValueView, from: int)
    requires
        0 <= from <= entries.len(),
    ensures
        from <= key_index(entries, k, from) <= entries.len(),
        key_index(entries, k, from) < entries.len() ==> entries[key_index(entries, k, from)].0
            == k,
        forall|j: int| from <= j < key_index(entries, k, from) ==> (#[trigger] entries[j]).0 != k,
    decreases entries.len() - from,
{
    if from < entries.len() && entries[from].0 != k {
        lemma_key_index(entries, k, from + 1);
    }
}

/// Inserting into a mapping without repeated keys leaves it without
/// repeated keys.
pub proof fn lemma_map_insert_distinct(
    entries: Seq<(ValueView, ValueView)>,
    k: ValueView,
    v: ValueView,
)
    requires
        distinct_keys(entries),
    ensures
        distinct_keys(map_insert(entries, k, v)),
{
    lemma_key_index(entries, k, 0);
    let i = key_index(entries, k, 0);
    let after = map_insert(entries, k, v);
    if i < entries.len() {
        assert forall|a: int, b: int| 0 <= a < b < after.len() implies after[a].0
            != after[b].0 by {
            assert(after[a].0 == entries[a].0);
            assert(after[b].0 == entries[b].0);
        }
    } else {
        assert forall|a: int, b: int| 0 <= a < b < after.len() implies after[a].0
            != after[b].0 by {
            if b == entries.len() {
                assert(after[a] == entries[a]);
            } else {
                assert(after[a] == entries[a] && after[b] == entries[b]);
            }
        }
    }
}

impl HMVtable {
    /// Creates an empty mapping. This works on a skipped mapping too.
    pub fn new_at(&self) -> (entries: Vec<(Value, Value)>)
        ensures
            entries@.len() == 0,
    {
        Vec::new()
    }

    #[verifier::loop_isolation(false)]
    /// Inserts an entry; the mapping takes key and value over. Where the
    /// key is present its value is replaced.
    pub fn fill_with(&self, entries: &mut Vec<(Value, Value)>, key: Value, value: Value) -> (r:
        Result<(), ReflectError>)
        ensures
            self.kind == TableKind::Skip ==> r == Err::<(), ReflectError>(
                ReflectError::NotSupported,
            ) && *final(entries) == *old(entries),
            self.kind == TableKind::Live ==> r is Ok && pair_views(
                final(entries)@,
                final(entries)@.len(),
            ) == map_insert(pair_views(old(entries)@, old(entries)@.len()), key@, value@),
            distinct_keys(pair_views(old(entries)@, old(entries)@.len())) ==> distinct_keys(
                pair_views(final(entries)@, final(entries)@.len()),
            ),
    {
        proof {
            if distinct_keys(pair_views(entries@, entries@.len())) {
                lemma_map_insert_distinct(pair_views(entries@, entries@.len()), key@, value@);
            }
        }
        match self.kind {
            TableKind::Skip => Err(ReflectError::NotSupported),
            TableKind::Live => {
                let ghost before = pair_views(entries@, entries@.len());
                proof {
                    lemma_pair_views(entries@, entries@.len());
                    lemma_key_index(before, key@, 0);
                }
                let mut i: usize = 0;
                while i < entries.len()
                    invariant
                        i <= entries.len(),
                        *entries == *old(entries),
                        before == pair_views(entries@, entries@.len()),
                        before.len() == entries@.len(),
                        forall|k: int|
                            0 <= k < entries@.len() ==> before[k] == (
                                entries@[k].0@,
                                entries@[k].1@,
                            ),
                        forall|k: int| 0 <= k < i ==> (#[trigger] before[k]).0 != key@,
                    decreases entries.len() - i,
                {
                    if entries[i].0.same(&key) {
                        proof {
                            assert(before[i as int].0 == key@);
                            let found = key_index(before, key@, 0);
                            if found < i {
                                assert(before[found].0 == key@);
                            }
                            if found > i {
                                assert(before[i as int].0 != key@);
                            }
                            assert(found == i);
                        }
                        entries.set(i, (key, value));
                        proof {
                            lemma_pair_views(entries@, entries@.len());
                            assert(pair_views(entries@, entries@.len()) =~= before.update(
                                i as int,
                                (key@, value@),
                            ));
                        }
                        return Ok(());
                    }
                    i += 1;
                }
                proof {
                    let found = key_index(before, key@, 0);
                    if found < before.len() {
                        assert(before[found].0 == key@);
                    }
                    assert(found == before.len());
                }
                entries.push((key, value));
                proof {
                    lemma_pair_views(entries@, entries@.len());
                    assert(pair_views(entries@, entries@.len()) =~= before.push((key@, value@)));
                }
                Ok(())
            },
        }
    }

    /// All entries, in the order in which the mapping yields them, for reading.
    pub fn get_elements_ref<'a>(&self, entries: &'a Vec<(Value, Value)>) -> (r: Result<
        &'a Vec<(Value, Value)>,
        ReflectError,
    >)
        ensures
            self.kind == TableKind::Skip ==> r == Err::<&Vec<(Value, Value)>, ReflectError>(
                ReflectError::NotSupported,
            ),
            self.kind == TableKind::Live ==> r == Ok::<&Vec<(Value, Value)>, ReflectError>(
                entries,
            ),
    {
        match self.kind {
            TableKind::Skip => Err(ReflectError::NotSupported),
            TableKind::Live => Ok(entries),
        }
    }

    /// All entries, in the order in which the mapping yields them, each
    /// with its key for reading and its value for writing.
    pub fn get_elements<'a>(&self, entries: &'a mut Vec<(Value, Value)>) -> (r: Result<
        Vec<(&'a Value, &'a mut Value)>,
        ReflectError,
    >)
        ensures
            self.kind == TableKind::Skip ==> r is Err && r->Err_0 == ReflectError::NotSupported,
            self.kind == TableKind::Live ==> r is Ok && r->Ok_0@.len() == old(entries)@.len()
                && (forall|i: int|
                0 <= i < old(entries)@.len() ==> *(#[trigger] r->Ok_0@[i]).0 == old(
                    entries,
                )@[i].0 && *r->Ok_0@[i].1 == old(entries)@[i].1),
            self.kind == TableKind::Live ==> final(entries)@.len() == old(entries)@.len() && (
            forall|i: int|
                0 <= i < old(entries)@.len() ==> #[trigger] final(entries)@[i] == (
                    old(entries)@[i].0,
                    *final(r->Ok_0@[i].1),
                )),
            r is Err ==> *final(entries) == *old(entries),
    {
        match self.kind {
            TableKind::Skip => Err(ReflectError::NotSupported),
            TableKind::Live => {
                let ghost all = entries@;
                let ghost fin = final(entries)@;
                let mut out: Vec<(&'a Value, &'a mut Value)> = Vec::new();
                let mut rest: &'a mut [(Value, Value)] = entries.as_mut_slice();
                let ghost done: int = 0;
                while rest.len() > 0
                    invariant
                        0 <= done <= all.len(),
                        out@.len() == done,
                        rest@ == all.subrange(done, all.len() as int),
                        forall|i: int|
                            0 <= i < done ==> *(#[trigger] out@[i]).0 == all[i].0 && *out@[i].1
                                == all[i].1,
                        fin.len() == done + final(rest)@.len(),
                        forall|i: int|
                            0 <= i < done ==> #[trigger] fin[i] == (all[i].0, *final(out@[i].1)),
                        forall|i: int|
                            0 <= i < final(rest)@.len() ==> #[trigger] fin[done + i] == final(rest)@[i],
                    decreases rest.len(),
                {
                    let ghost fr = final(rest)@;
                    let (head, tail) = rest.split_at_mut(1);
                    let ghost fh = final(head)@;
                    let ghost ft = final(tail)@;
                    proof {
                        assert(fr == fh + ft);
                    }
                    let entry: &'a mut (Value, Value) = &mut head[0];
                    proof {
                        assert(*entry == all[done]);
                        assert(tail@ =~= all.subrange(done + 1, all.len() as int));
                        assert(fh.len() == 1);
                        assert(fh[0] == *final(entry));
                        assert(fin[done + 0] == fr[0]);
                        assert(fr[0] == fh[0]);
                        assert forall|i: int| 0 <= i < ft.len() implies #[trigger] fin[done + 1 + i]
                            == ft[i] by {
                            assert(fin[done + (i + 1)] == fr[i + 1]);
                            assert(fr[i + 1] == ft[i]);
                        }
                    }
                    let key: &'a Value = &entry.0;
                    let value: &'a mut Value = &mut entry.1;
                    proof {
                        assert(fin[done] == (all[done].0, *final(value)));
                    }
                    out.push((key, value));
                    rest = tail;
                    proof {
                        done = done + 1;
                    }
                }
                Ok(out)
            },
        }
    }
}

} // verus!
