//! Described values: the memory that a descriptor lays out, held as a tree
//! of plain values so that every access can be checked.

use vstd::prelude::*;

verus! {

/// Storage of a sequence: the slots written so far, how many of them count
/// as elements, and how many slots are reserved.
#[derive(Debug)]
pub struct SeqStore {
    pub items: Vec<Value>,
    pub len: usize,
    pub cap: usize,
}

/// A value of a described type.
///
/// A floating-point number is held as its decimal text. A mapping and a set
/// keep their entries in the order in which they were inserted.
#[derive(Debug)]
pub enum Value {
    I32(i32),
    U32(u32),
    F32(String),
    I64(i64),
    U64(u64),
    F64(String),
    ISize(isize),
    USize(usize),
    Bool(bool),
    String(String),
    Struct(Vec<Value>),
    CEnum(i32),
    Vec(SeqStore),
    HashMap(Vec<(Value, Value)>),
    HashSet(Vec<Value>),
    Option(Option<Box<Value>>),
    RustEnum(usize, Vec<Value>),
    Box(Box<Value>),
}

/// Mathematical model of a value.
pub enum ValueView {
    I32(i32),
    U32(u32),
    F32(Seq<char>),
    I64(i64),
    U64(u64),
    F64(Seq<char>),
    ISize(isize),
    USize(usize),
    Bool(bool),
    String(Seq<char>),
    Struct(Seq<ValueView>),
    CEnum(i32),
    Vec(Seq<ValueView>),
    HashMap(Seq<(ValueView, ValueView)>),
    HashSet(Seq<ValueView>),
    Option(Option<Box<ValueView>>),
    RustEnum(nat, Seq<ValueView>),
    Box(Box<ValueView>),
}

/// Model of a value. A sequence shows the slots that count as elements.
pub open spec fn value_view(v: Value) -> ValueView
    decreases v,
{
    match v {
        Value::I32(x) => ValueView::I32(x),
        Value::U32(x) => ValueView::U32(x),
        Value::F32(t) => ValueView::F32(t@),
        Value::I64(x) => ValueView::I64(x),
        Value::U64(x) => ValueView::U64(x),
        Value::F64(t) => ValueView::F64(t@),
        Value::ISize(x) => ValueView::ISize(x),
        Value::USize(x) => ValueView::USize(x),
        Value::Bool(b) => ValueView::Bool(b),
        Value::String(s) => ValueView::String(s@),
        Value::Struct(fields) => ValueView::Struct(value_views(fields@, fields@.len())),
        Value::CEnum(d) => ValueView::CEnum(d),
        Value::Vec(store) => ValueView::Vec(value_views(store.items@, store.count())),
        Value::HashMap(entries) => ValueView::HashMap(pair_views(entries@, entries@.len())),
        Value::HashSet(items) => ValueView::HashSet(value_views(items@, items@.len())),
        Value::Option(o) => match o {
            None => ValueView::Option(None),
            Some(b) => ValueView::Option(Some(Box::new(value_view(*b)))),
        },
        Value::RustEnum(idx, fields) => ValueView::RustEnum(
            idx as nat,
            value_views(fields@, fields@.len()),
        ),
        Value::Box(b) => ValueView::Box(Box::new(value_view(*b))),
    }
}

/// Models of the first `n` values of a list.
pub open spec fn value_views(items: Seq<Value>, n: nat) -> Seq<ValueView>
    decreases items, n,
{
    if n == 0 || n > items.len() {
        Seq::empty()
    } else {
        value_views(items, (n - 1) as nat).push(value_view(items[n - 1]))
    }
}

/// Models of the first `n` entries of a mapping.
pub open spec fn pair_views(entries: Seq<(Value, Value)>, n: nat) -> Seq<(ValueView, ValueView)>
    decreases entries, n,
{
    if n == 0 || n > entries.len() {
        Seq::empty()
    } else {
        pair_views(entries, (n - 1) as nat).push(
            (value_view(entries[n - 1].0), value_view(entries[n - 1].1)),
        )
    }
}

impl View for Value {
    type V = ValueView;

    open spec fn view(&self) -> ValueView {
        value_view(*self)
    }
}

impl SeqStore {
    /// How many slots count as elements: the length that was set, but
    /// never more than the slots that were written.
    pub open spec fn count(&self) -> nat {
        if self.len <= self.items@.len() {
            self.len as nat
        } else {
            self.items@.len()
        }
    }

    /// The slots are filled in order, the elements are among the filled
    /// slots, and no slot lies beyond what is reserved.
    pub open spec fn wf(&self) -> bool {
        self.len <= self.items@.len() && self.items@.len() <= self.cap
    }
}

/// The model of a list has one entry per value, each the model of its value.
pub proof fn lemma_value_views(items: Seq<Value>, n: nat)
    requires
        n <= items.len(),
    ensures
        value_views(items, n).len() == n,
        forall|k: int| 0 <= k < n ==> #[trigger] value_views(items, n)[k] == items[k]@,
    decreases n,
{
    if n > 0 {
        lemma_value_views(items, (n - 1) as nat);
    }
}

/// The model of an entry list has one pair per entry.
pub proof fn lemma_pair_views(entries: Seq<(Value, Value)>, n: nat)
    requires
        n <= entries.len(),
    ensures
        pair_views(entries, n).len() == n,
        forall|k: int|
            0 <= k < n ==> #[trigger] pair_views(entries, n)[k] == (
                entries[k].0@,
                entries[k].1@,
            ),
    decreases n,
{
    if n > 0 {
        lemma_pair_views(entries, (n - 1) as nat);
    }
}

/// Whether two lists of values have the same model.
#[verifier::loop_isolation(false)]
fn same_list(a: &Vec<Value>, na: usize, b: &Vec<Value>, nb: usize) -> (r: bool)
    requires
        na <= a.len(),
        nb <= b.len(),
    ensures
        r == (value_views(a@, na as nat) == value_views(b@, nb as nat)),
    decreases a, 0nat,
{
    proof {
        lemma_value_views(a@, na as nat);
        lemma_value_views(b@, nb as nat);
    }
    if na != nb {
        return false;
    }
    let mut i: usize = 0;
    while i < na
        invariant
            i <= na,
            forall|k: int| 0 <= k < i ==> a@[k]@ == b@[k]@,
        decreases na - i,
    {
        if !a[i].same(&b[i]) {
            assert(value_views(a@, na as nat)[i as int] != value_views(b@, nb as nat)[i as int]);
            return false;
        }
        i += 1;
    }
    assert(value_views(a@, na as nat) =~= value_views(b@, nb as nat));
    true
}

impl Value {
    /// Whether two values are structurally equal: whether their models are.
    #[verifier::loop_isolation(false)]
    pub fn same(&self, other: &Value) -> (r: bool)
        ensures
            r == (self@ == other@),
        decreases self, 1nat,
    {
        match (self, other) {
            (Value::I32(x), Value::I32(y)) => *x == *y,
            (Value::U32(x), Value::U32(y)) => *x == *y,
            (Value::F32(x), Value::F32(y)) => *x == *y,
            (Value::I64(x), Value::I64(y)) => *x == *y,
            (Value::U64(x), Value::U64(y)) => *x == *y,
            (Value::F64(x), Value::F64(y)) => *x == *y,
            (Value::ISize(x), Value::ISize(y)) => *x == *y,
            (Value::USize(x), Value::USize(y)) => *x == *y,
            (Value::Bool(x), Value::Bool(y)) => *x == *y,
            (Value::String(x), Value::String(y)) => *x == *y,
            (Value::Struct(x), Value::Struct(y)) => {
                let r: bool = same_list(x, x.len(), y, y.len());
                assert(r == (self@ == other@));
                r
            },
            (Value::CEnum(x), Value::CEnum(y)) => *x == *y,
            (Value::Vec(x), Value::Vec(y)) => {
                let nx: usize = if x.len > x.items.len() {
                    x.items.len()
                } else {
                    x.len
                };
                let ny: usize = if y.len > y.items.len() {
                    y.items.len()
                } else {
                    y.len
                };
                let r: bool = same_list(&x.items, nx, &y.items, ny);
                assert(r == (self@ == other@));
                r
            },
            (Value::HashMap(x), Value::HashMap(y)) => {
                proof {
                    lemma_pair_views(x@, x@.len());
                    lemma_pair_views(y@, y@.len());
                }
                if x.len() != y.len() {
                    return false;
                }
                let mut i: usize = 0;
                while i < x.len()
                    invariant
                        i <= x.len(),
                        forall|k: int|
                            0 <= k < i ==> x@[k].0@ == y@[k].0@ && x@[k].1@ == y@[k].1@,
                    decreases x.len() - i,
                {
                    if !x[i].0.same(&y[i].0) || !x[i].1.same(&y[i].1) {
                        assert(pair_views(x@, x@.len())[i as int] != pair_views(y@, y@.len())[i as int]);
                        return false;
                    }
                    i += 1;
                }
                assert(pair_views(x@, x@.len()) =~= pair_views(y@, y@.len()));
                true
            },
            (Value::HashSet(x), Value::HashSet(y)) => {
                let r: bool = same_list(x, x.len(), y, y.len());
                assert(r == (self@ == other@));
                r
            },
            (Value::Option(x), Value::Option(y)) => match (x, y) {
                (None, None) => true,
                (Some(p), Some(q)) => {
                    let r: bool = p.same(q);
                    assert(r == (self@ == other@));
                    r
                },
                _ => false,
            },
            (Value::RustEnum(i, x), Value::RustEnum(j, y)) => {
                let r: bool = same_list(x, x.len(), y, y.len());
                assert(r == (self@->RustEnum_1 == other@->RustEnum_1));
                *i == *j && r
            },
            (Value::Box(p), Value::Box(q)) => {
                let r: bool = p.same(q);
                assert(r == (self@ == other@));
                r
            },
            _ => false,
        }
    }
}

} // verus!
