//! Dispatch table of sequences.

use vstd::prelude::*;
use crate::error::ReflectError;
use crate::table::TableKind;
use crate::value::{SeqStore, Value};

verus! {

/// The operations of a sequence, for one element type.
#[derive(Clone, Copy, Debug, PartialEq, Eq, Structural)]
pub struct VecVtable {
    pub kind: TableKind,
}

/// Makes the table of a live sequence.
#[derive(Clone, Copy, Debug)]
pub struct VecVtableCreator {}

/// Makes the table of a sequence that is marked to be skipped.
#[derive(Clone, Copy, Debug)]
pub struct EmptyVecVtableCreator {}

impl VecVtableCreator {
    /// The table of a live sequence.
    pub fn vtable() -> (t: VecVtable)
        ensures
            t.kind == TableKind::Live,
    {
        VecVtable { kind: TableKind::Live }
    }
}

impl EmptyVecVtableCreator {
    /// The table of a skipped sequence.
    pub fn vtable() -> (t: VecVtable)
        ensures
            t.kind == TableKind::Skip,
    {
        VecVtable { kind: TableKind::Skip }
    }
}

impl VecVtable {
    /// Creates an empty sequence with `capacity` reserved slots. This works
    /// on a skipped sequence too, so that the value around it is whole.
    pub fn new_at(&self, capacity: usize) -> (store: SeqStore)
        ensures
            store.wf(),
            store.items@.len() == 0,
            store.len == 0,
            store.cap == capacity,
    {
        SeqStore { items: Vec::new(), len: 0, cap: capacity }
    }

    /// Sets how many of the written slots count as elements.
    pub fn set_len(&self, store: &mut SeqStore, len: usize) -> (r: Result<(), ReflectError>)
        ensures
            self.kind == TableKind::Skip ==> r == Err::<(), ReflectError>(
                ReflectError::NotSupported,
            ),
            self.kind == TableKind::Live && len > old(store).items@.len() ==> r == Err::<
                (),
                ReflectError,
            >(ReflectError::OutOfBounds),
            self.kind == TableKind::Live && len <= old(store).items@.len() ==> r is Ok,
            r is Err ==> *final(store) == *old(store),
            r is Ok ==> final(store).items == old(store).items && final(store).cap == old(
                store,
            ).cap && final(store).len == len,
            old(store).wf() ==> final(store).wf(),
    {
        match self.kind {
            TableKind::Skip => Err(ReflectError::NotSupported),
            TableKind::Live => {
                if len > store.items.len() {
                    Err(ReflectError::OutOfBounds)
                } else {
                    store.len = len;
                    Ok(())
                }
            },
        }
    }

    /// Grows the reserved slots so that `additional` more than the current
    /// elements fit. Slots that are already reserved are kept.
    pub fn reserve(&self, store: &mut SeqStore, additional: usize) -> (r: Result<
        (),
        ReflectError,
    >)
        ensures
            self.kind == TableKind::Skip ==> r == Err::<(), ReflectError>(
                ReflectError::NotSupported,
            ),
            self.kind == TableKind::Live && old(store).len + additional > usize::MAX ==> r
                == Err::<(), ReflectError>(ReflectError::OutOfBounds),
            self.kind == TableKind::Live && old(store).len + additional <= usize::MAX ==> r is Ok,
            r is Err ==> *final(store) == *old(store),
            r is Ok ==> final(store).items == old(store).items && final(store).len == old(
                store,
            ).len && final(store).cap == (if old(store).cap >= old(store).len + additional {
                old(store).cap
            } else {
                (old(store).len + additional) as usize
            }),
            old(store).wf() ==> final(store).wf(),
    {
        match self.kind {
            TableKind::Skip => Err(ReflectError::NotSupported),
            TableKind::Live => {
                if additional > usize::MAX - store.len {
                    Err(ReflectError::OutOfBounds)
                } else {
                    let wanted: usize = store.len + additional;
                    if store.cap < wanted {
                        store.cap = wanted;
                    }
                    Ok(())
                }
            },
        }
    }

    /// The number of elements.
    pub fn get_len(&self, store: &SeqStore) -> (r: Result<usize, ReflectError>)
        ensures
            self.kind == TableKind::Skip ==> r == Err::<usize, ReflectError>(
                ReflectError::NotSupported,
            ),
            self.kind == TableKind::Live ==> r is Ok && r->Ok_0 == store.count(),
    {
        match self.kind {
            TableKind::Skip => Err(ReflectError::NotSupported),
            TableKind::Live => {
                if store.len <= store.items.len() {
                    Ok(store.len)
                } else {
                    Ok(store.items.len())
                }
            },
        }
    }

    /// Writes the slot at `index`: the next free slot, if one is reserved,
    /// or a slot that was written before.
    pub fn write_at(&self, store: &mut SeqStore, index: usize, value: Value) -> (r: Result<
        (),
        ReflectError,
    >)
        ensures
            self.kind == TableKind::Skip ==> r == Err::<(), ReflectError>(
                ReflectError::NotSupported,
            ),
            self.kind == TableKind::Live && (index > old(store).items@.len() || index >= old(
                store,
            ).cap) ==> r == Err::<(), ReflectError>(ReflectError::OutOfBounds),
            self.kind == TableKind::Live && index <= old(store).items@.len() && index < old(
                store,
            ).cap ==> r is Ok,
            r is Err ==> *final(store) == *old(store),
            r is Ok ==> final(store).len == old(store).len && final(store).cap == old(store).cap
                && final(store).items@ == (if index < old(store).items@.len() {
                old(store).items@.update(index as int, value)
            } else {
                old(store).items@.push(value)
            }),
            old(store).wf() ==> final(store).wf(),
    {
        match self.kind {
            TableKind::Skip => Err(ReflectError::NotSupported),
            TableKind::Live => {
                if index > store.items.len() || index >= store.cap {
                    Err(ReflectError::OutOfBounds)
                } else if index < store.items.len() {
                    store.items.set(index, value);
                    Ok(())
                } else {
                    store.items.push(value);
                    Ok(())
                }
            },
        }
    }

    /// The element at `index`, for reading.
    pub fn get_elem_ref<'a>(&self, store: &'a SeqStore, index: usize) -> (r: Result<
        &'a Value,
        ReflectError,
    >)
        ensures
            self.kind == TableKind::Skip ==> r == Err::<&Value, ReflectError>(
                ReflectError::NotSupported,
            ),
            self.kind == TableKind::Live && index >= store.count() ==> r == Err::<
                &Value,
                ReflectError,
            >(ReflectError::OutOfBounds),
            self.kind == TableKind::Live && index < store.count() ==> r == Ok::<
                &Value,
                ReflectError,
            >(&store.items@[index as int]),
    {
        match self.kind {
            TableKind::Skip => Err(ReflectError::NotSupported),
            TableKind::Live => {
                if index >= store.len || index >= store.items.len() {
                    Err(ReflectError::OutOfBounds)
                } else {
                    Ok(&store.items[index])
                }
            },
        }
    }

    /// The element at `index`, for writing.
    pub fn get_elem<'a>(&self, store: &'a mut SeqStore, index: usize) -> (r: Result<
        &'a mut Value,
        ReflectError,
    >)
        ensures
            self.kind == TableKind::Skip ==> r is Err && r->Err_0 == ReflectError::NotSupported,
            self.kind == TableKind::Live && index >= old(store).count() ==> r is Err && r->Err_0
                == ReflectError::OutOfBounds,
            r is Err ==> *final(store) == *old(store),
            self.kind == TableKind::Live && index < old(store).count() ==> r is Ok && *r->Ok_0
                == old(store).items@[index as int] && final(store).items@ == old(
                store,
            ).items@.update(index as int, *final(r->Ok_0)) && final(store).len == old(store).len
                && final(store).cap == old(store).cap,
    {
        match self.kind {
            TableKind::Skip => Err(ReflectError::NotSupported),
            TableKind::Live => {
                if index >= store.len || index >= store.items.len() {
                    Err(ReflectError::OutOfBounds)
                } else {
                    Ok(&mut store.items[index])
                }
            },
        }
    }
}

} // verus!
