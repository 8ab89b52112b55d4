//! Dispatch table of sets.

use vstd::prelude::*;
use crate::error::ReflectError;
use crate::table::TableKind;
use crate::value::{Value, ValueView, lemma_value_views, value_views};

verus! {

/// The operations of a set, for one element type.
#[derive(Clone, Copy, Debug, PartialEq, Eq, Structural)]
pub struct HSVtable {
    pub kind: TableKind,
}

/// Makes the table of a live set.
#[derive(Clone, Copy, Debug)]
pub struct HSVtableCreator {}

/// Makes the table of a set that is marked to be skipped.
#[derive(Clone, Copy, Debug)]
pub struct EmptyHSVtableCreator {}

impl HSVtableCreator {
    /// The table of a live set.
    pub fn vtable() -> (t: HSVtable)
        ensures
            t.kind == TableKind::Live,
    {
        HSVtable { kind: TableKind::Live }
    }
}

impl EmptyHSVtableCreator {
    /// The table of a skipped set.
    pub fn vtable() -> (t: HSVtable)
        ensures
            t.kind == TableKind::Skip,
    {
        HSVtable { kind: TableKind::Skip }
    }
}

/// No element of the list occurs twice.
pub open spec fn distinct(items: Seq<ValueView>) -> bool {
    forall|i: int, j: int| 0 <= i < j < items.len() ==> items[i] != items[j]
}

/// The set after an insertion: unchanged where the element is a member,
/// else with the element at the end.
pub open spec fn set_insert(items: Seq<ValueView>, e: ValueView) -> Seq<ValueView> {
    if items.contains(e) {
        items
    } else {
        items.push(e)
    }
}

/// Inserting into a set without repeats leaves it without repeats.
pub proof fn lemma_set_insert_distinct(items: Seq<ValueView>, e: ValueView)
    requires
        distinct(items),
    ensures
        distinct(set_insert(items, e)),
{
    if !items.contains(e) {
        let after = items.push(e);
        assert forall|i: int, j: int| 0 <= i < j < after.len() implies after[i] != after[j] by {
            if j == items.len() {
                assert(after[i] == items[i]);
                assert(items.contains(items[i]));
            } else {
                assert(after[i] == items[i] && after[j] == items[j]);
            }
        }
    }
}

impl HSVtable {
    /// Creates an empty set. This works on a skipped set too.
    pub fn new_at(&self) -> (items: Vec<Value>)
        ensures
            items@.len() == 0,
    {
        Vec::new()
    }

    #[verifier::loop_isolation(false)]
    /// Adds `element` to the set; the set takes it over. An element that
    /// is a member already is dropped.
    pub fn fill_with(&self, items: &mut Vec<Value>, element: Value) -> (r: Result<
        (),
        ReflectError,
    >)
        ensures
            self.kind == TableKind::Skip ==> r == Err::<(), ReflectError>(
                ReflectError::NotSupported,
            ) && *final(items) == *old(items),
            self.kind == TableKind::Live ==> r is Ok && value_views(
                final(items)@,
                final(items)@.len(),
            ) == set_insert(value_views(old(items)@, old(items)@.len()), element@),
            distinct(value_views(old(items)@, old(items)@.len())) ==> distinct(
                value_views(final(items)@, final(items)@.len()),
            ),
    {
        proof {
            if distinct(value_views(items@, items@.len())) {
                lemma_set_insert_distinct(value_views(items@, items@.len()), element@);
            }
        }
        match self.kind {
            TableKind::Skip => Err(ReflectError::NotSupported),
            TableKind::Live => {
                let ghost before = value_views(items@, items@.len());
                proof {
                    lemma_value_views(items@, items@.len());
                }
                let mut i: usize = 0;
                while i < items.len()
                    invariant
                        i <= items.len(),
                        *items == *old(items),
                        before == value_views(items@, items@.len()),
                        before.len() == items@.len(),
                        forall|k: int| 0 <= k < items@.len() ==> before[k] == items@[k]@,
                        forall|k: int| 0 <= k < i ==> before[k] != element@,
                    decreases items.len() - i,
                {
                    if items[i].same(&element) {
                        assert(before[i as int] == element@);
                        assert(before.contains(element@));
                        return Ok(());
                    }
                    i += 1;
                }
                assert(!before.contains(element@));
                items.push(element);
                proof {
                    lemma_value_views(items@, items@.len());
                    assert(value_views(items@, items@.len()) =~= before.push(element@));
                }
                Ok(())
            },
        }
    }

    /// All elements, in the order in which the set yields them, for reading.
    pub fn get_elements_ref<'a>(&self, items: &'a Vec<Value>) -> (r: Result<
        &'a Vec<Value>,
        ReflectError,
    >)
        ensures
            self.kind == TableKind::Skip ==> r == Err::<&Vec<Value>, ReflectError>(
                ReflectError::NotSupported,
            ),
            self.kind == TableKind::Live ==> r == Ok::<&Vec<Value>, ReflectError>(items),
    {
        match self.kind {
            TableKind::Skip => Err(ReflectError::NotSupported),
            TableKind::Live => Ok(items),
        }
    }
}

} // verus!
