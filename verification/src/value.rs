//! The uniform representation of interpreter values.

use crate::integer::int_of;
use num_bigint::BigInt;
use std::rc::Rc;
use vstd::prelude::*;

verus! {

/// Any datum of the interpreter. Payloads that live on the heap are held
/// behind a reference count, so that a copy shares them.
#[derive(Debug)]
pub enum Value {
    Unit,
    Bool(bool),
    U8(u8),
    U16(u16),
    U32(u32),
    U64(u64),
    U128(u128),
    Int(Rc<BigInt>),
    Text(Rc<String>),
    List(Rc<Vec<Value>>),
    Tuple(Rc<Vec<Value>>),
    Unknown,
}

/// What a `Value` stands for.
pub ghost enum ValueView {
    Unit,
    Bool(bool),
    U8(u8),
    U16(u16),
    U32(u32),
    U64(u64),
    U128(u128),
    Int(int),
    Text(Seq<char>),
    List(Seq<ValueView>),
    Tuple(Seq<ValueView>),
    Unknown,
}

/// The views of a sequence of values, item by item.
pub open spec fn views(items: Seq<Value>) -> Seq<ValueView>
    decreases items,
{
    // The test on `i` is never false within the sequence: it is there for
    // the termination of `view`, which holds for the items of a sequence only.
    Seq::new(
        items.len(),
        |i: int|
            if 0 <= i < items.len() {
                items[i].view()
            } else {
                ValueView::Unit
            },
    )
}

impl View for Value {
    type V = ValueView;

    open spec fn view(&self) -> ValueView
        decreases self,
    {
        match self {
            Value::Unit => ValueView::Unit,
            Value::Bool(b) => ValueView::Bool(*b),
            Value::U8(n) => ValueView::U8(*n),
            Value::U16(n) => ValueView::U16(*n),
            Value::U32(n) => ValueView::U32(*n),
            Value::U64(n) => ValueView::U64(*n),
            Value::U128(n) => ValueView::U128(*n),
            Value::Int(n) => ValueView::Int(int_of(**n)),
            Value::Text(s) => ValueView::Text(s@),
            Value::List(items) => ValueView::List(views(items@)),
            Value::Tuple(items) => ValueView::Tuple(views(items@)),
            Value::Unknown => ValueView::Unknown,
        }
    }
}

/// `Rc::clone`: a second handle to the same allocation, hence to an equal
/// value.
#[verifier::external_body]
fn share<T>(handle: &Rc<T>) -> (other: Rc<T>)
    ensures
        other == *handle,
{
    Rc::clone(handle)
}

impl Clone for Value {
    fn clone(&self) -> (copy: Self)
        ensures
            copy == *self,
    {
        match self {
            Value::Unit => Value::Unit,
            Value::Bool(b) => Value::Bool(*b),
            Value::U8(n) => Value::U8(*n),
            Value::U16(n) => Value::U16(*n),
            Value::U32(n) => Value::U32(*n),
            Value::U64(n) => Value::U64(*n),
            Value::U128(n) => Value::U128(*n),
            Value::Int(n) => Value::Int(share(n)),
            Value::Text(s) => Value::Text(share(s)),
            Value::List(items) => Value::List(share(items)),
            Value::Tuple(items) => Value::Tuple(share(items)),
            Value::Unknown => Value::Unknown,
        }
    }
}

impl ValueView {
    /// Whether this is an ordered collection of values: a list, a tuple or
    /// a struct.
    pub open spec fn is_aggregate(self) -> bool {
        self is List || self is Tuple
    }

    /// The items of an aggregate, in order.
    pub open spec fn items(self) -> Seq<ValueView> {
        match self {
            ValueView::List(items) => items,
            ValueView::Tuple(items) => items,
            _ => Seq::empty(),
        }
    }

    /// The aggregate of the same kind with other items.
    pub open spec fn with_items(self, items: Seq<ValueView>) -> ValueView {
        match self {
            ValueView::List(_) => ValueView::List(items),
            ValueView::Tuple(_) => ValueView::Tuple(items),
            _ => self,
        }
    }

    /// The aggregate with the item at one position replaced.
    pub open spec fn with_item(self, i: int, item: ValueView) -> ValueView {
        self.with_items(self.items().update(i, item))
    }
}

/// Replacing one value of a sequence replaces its view at that position.
pub proof fn lemma_views_update(items: Seq<Value>, i: int, item: Value)
    requires
        0 <= i < items.len(),
    ensures
        views(items.update(i, item)) == views(items).update(i, item@),
{
    assert(views(items.update(i, item)) =~= views(items).update(i, item@));
}

/// Appending one value to a sequence appends its view.
pub proof fn lemma_views_push(items: Seq<Value>, item: Value)
    ensures
        views(items.push(item)) == views(items).push(item@),
{
    assert(views(items.push(item)) =~= views(items).push(item@));
}

/// A write to one position of an aggregate is seen by a later read of that
/// position, and by no read of another position; the aggregate keeps its
/// kind and its length.
pub proof fn lemma_write_then_read(v: ValueView, i: int, item: ValueView)
    requires
        v.is_aggregate(),
        0 <= i < v.items().len(),
    ensures
        v.with_item(i, item).items()[i] == item,
        v.with_item(i, item).items().len() == v.items().len(),
        v.with_item(i, item) is List <==> v is List,
        v.with_item(i, item) is Tuple <==> v is Tuple,
        forall|j: int|
            0 <= j < v.items().len() && j != i ==> v.with_item(i, item).items()[j] == v.items()[j],
{
}

/// The items behind a handle, owned: taken out where the handle is the only
/// one, copied item by item where the storage is shared.
fn unshare(handle: Rc<Vec<Value>>) -> (items: Vec<Value>)
    ensures
        items@ == handle@,
{
    match Rc::try_unwrap(handle) {
        Ok(items) => items,
        Err(shared) => {
            let mut items: Vec<Value> = Vec::new();
            let n = shared.len();
            let mut i: usize = 0;
            while i < n
                invariant
                    n == shared@.len(),
                    i <= n,
                    items@ == shared@.take(i as int),
                decreases n - i,
            {
                items.push(shared[i].clone());
                assert(shared@.take(i as int).push(shared@[i as int]) =~= shared@.take(i + 1));
                i = i + 1;
            }
            assert(shared@.take(n as int) =~= shared@);
            items
        },
    }
}

impl Value {
    /// A list of the given items.
    pub fn list(items: Vec<Value>) -> (v: Value)
        ensures
            v@ == ValueView::List(views(items@)),
    {
        Value::List(Rc::new(items))
    }

    /// A tuple, or a struct, of the given items.
    pub fn tuple(items: Vec<Value>) -> (v: Value)
        ensures
            v@ == ValueView::Tuple(views(items@)),
    {
        Value::Tuple(Rc::new(items))
    }

    /// Whether the value is the placeholder for what cannot be observed.
    pub fn is_unknown(&self) -> (r: bool)
        ensures
            r == (self@ is Unknown),
    {
        match self {
            Value::Unknown => true,
            _ => false,
        }
    }

    /// Whether the value is a list.
    pub fn is_list(&self) -> (r: bool)
        ensures
            r == (self@ is List),
    {
        match self {
            Value::List(_) => true,
            _ => false,
        }
    }

    /// Whether the value is a tuple or a struct.
    pub fn is_tuple(&self) -> (r: bool)
        ensures
            r == (self@ is Tuple),
    {
        match self {
            Value::Tuple(_) => true,
            _ => false,
        }
    }

    /// The items of an aggregate, borrowed from its storage.
    pub fn items(&self) -> (items: &Vec<Value>)
        requires
            self@.is_aggregate(),
        ensures
            views(items@) == self@.items(),
    {
        match self {
            Value::List(items) => items,
            Value::Tuple(items) => items,
            _ => unreached(),
        }
    }

    /// The number of items of an aggregate.
    pub fn len(&self) -> (n: usize)
        requires
            self@.is_aggregate(),
        ensures
            n == self@.items().len(),
    {
        self.items().len()
    }

    /// The item at a position of an aggregate, borrowed from its storage.
    pub fn item(&self, i: usize) -> (item: &Value)
        requires
            self@.is_aggregate(),
            i < self@.items().len(),
        ensures
            item@ == self@.items()[i as int],
    {
        let items = self.items();
        &items[i]
    }

    /// The big integer that the value holds, borrowed from its storage.
    pub fn as_int(&self) -> (n: &BigInt)
        requires
            self@ is Int,
        ensures
            self@ == ValueView::Int(int_of(*n)),
    {
        match self {
            Value::Int(n) => n,
            _ => unreached(),
        }
    }

    /// The text that the value holds, borrowed from its storage.
    pub fn as_text(&self) -> (s: &String)
        requires
            self@ is Text,
        ensures
            self@ == ValueView::Text(s@),
    {
        match self {
            Value::Text(s) => s,
            _ => unreached(),
        }
    }

    /// Replaces the item at one position of an aggregate. The storage is
    /// written in place where this value is its only holder, and copied
    /// first where it is shared, so that no other holder sees the change.
    pub fn set_item(&mut self, i: usize, item: Value)
        requires
            old(self)@.is_aggregate(),
            i < old(self)@.items().len(),
        ensures
            final(self)@ == old(self)@.with_item(i as int, item@),
    {
        let mut held = Value::Unit;
        std::mem::swap(self, &mut held);
        match held {
            Value::List(handle) => {
                let mut items = unshare(handle);
                proof {
                    assert(old(self)@.items() == views(items@));
                    assert(views(items@).len() == items@.len());
                    lemma_views_update(items@, i as int, item);
                }
                items.set(i, item);
                *self = Value::List(Rc::new(items));
            },
            Value::Tuple(handle) => {
                let mut items = unshare(handle);
                proof {
                    assert(old(self)@.items() == views(items@));
                    assert(views(items@).len() == items@.len());
                    lemma_views_update(items@, i as int, item);
                }
                items.set(i, item);
                *self = Value::Tuple(Rc::new(items));
            },
            _ => {},
        }
    }
}

} // verus!
