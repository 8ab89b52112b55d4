//! Dispatch table of optional values.

use vstd::prelude::*;
use crate::error::ReflectError;
use crate::table::TableKind;
use crate::value::Value;

verus! {

/// The operations of an optional value, for one element type.
#[derive(Clone, Copy, Debug, PartialEq, Eq, Structural)]
pub struct OptionVtable {
    pub kind: TableKind,
}

/// Makes the table of a live optional value.
#[derive(Clone, Copy, Debug)]
pub struct OptionVtableCreator {}

/// Makes the table of an optional value that is marked to be skipped.
#[derive(Clone, Copy, Debug)]
pub struct EmptyOptionVtableCreator {}

impl OptionVtableCreator {
    /// The table of a live optional value.
    pub fn vtable() -> (t: OptionVtable)
        ensures
            t.kind == TableKind::Live,
    {
        OptionVtable { kind: TableKind::Live }
    }
}

impl EmptyOptionVtableCreator {
    /// The table of a skipped optional value.
    pub fn vtable() -> (t: OptionVtable)
        ensures
            t.kind == TableKind::Skip,
    {
        OptionVtable { kind: TableKind::Skip }
    }
}

impl OptionVtable {
    /// Creates an optional value that holds nothing. This works on a
    /// skipped one too.
    pub fn new_at(&self) -> (slot: Option<Box<Value>>)
        ensures
            slot is None,
    {
        None
    }

    /// Puts `value` in the slot, or empties it; the slot takes the value over.
    pub fn set(&self, slot: &mut Option<Box<Value>>, value: Option<Value>) -> (r: Result<
        (),
        ReflectError,
    >)
        ensures
            self.kind == TableKind::Skip ==> r == Err::<(), ReflectError>(
                ReflectError::NotSupported,
            ) && *final(slot) == *old(slot),
            self.kind == TableKind::Live ==> r is Ok && (match value {
                None => *final(slot) == None::<Box<Value>>,
                Some(v) => *final(slot) == Some(Box::new(v)),
            }),
    {
        match self.kind {
            TableKind::Skip => Err(ReflectError::NotSupported),
            TableKind::Live => {
                match value {
                    None => {
                        *slot = None;
                    },
                    Some(v) => {
                        *slot = Some(Box::new(v));
                    },
                }
                Ok(())
            },
        }
    }

    /// What the slot holds, for reading.
    pub fn get_elem_ref<'a>(&self, slot: &'a Option<Box<Value>>) -> (r: Result<
        Option<&'a Value>,
        ReflectError,
    >)
        ensures
            self.kind == TableKind::Skip ==> r == Err::<Option<&Value>, ReflectError>(
                ReflectError::NotSupported,
            ),
            self.kind == TableKind::Live ==> (match *slot {
                None => r == Ok::<Option<&Value>, ReflectError>(None),
                Some(b) => r == Ok::<Option<&Value>, ReflectError>(Some(&*b)),
            }),
    {
        match self.kind {
            TableKind::Skip => Err(ReflectError::NotSupported),
            TableKind::Live => match slot {
                None => Ok(None),
                Some(b) => Ok(Some(&**b)),
            },
        }
    }

    /// What the slot holds, for writing.
    pub fn get_elem<'a>(&self, slot: &'a mut Option<Box<Value>>) -> (r: Result<
        Option<&'a mut Value>,
        ReflectError,
    >)
        ensures
            self.kind == TableKind::Skip ==> r is Err && r->Err_0 == ReflectError::NotSupported
                && *final(slot) == *old(slot),
            self.kind == TableKind::Live ==> r is Ok && (match *old(slot) {
                None => r->Ok_0 is None && *final(slot) == *old(slot),
                Some(b) => r->Ok_0 is Some && *r->Ok_0->Some_0 == *b && *final(slot) == Some(
                    Box::new(*final(r->Ok_0->Some_0)),
                ),
            }),
    {
        match self.kind {
            TableKind::Skip => Err(ReflectError::NotSupported),
            TableKind::Live => match slot {
                None => Ok(None),
                Some(b) => Ok(Some(&mut **b)),
            },
        }
    }
}

} // verus!
