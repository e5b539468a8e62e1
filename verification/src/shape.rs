//! The conversion contract between native shapes and interpreter values.

use crate::integer::big_clone;
use crate::integer::int_of;
use crate::value::views;
use crate::value::Value;
use crate::value::ValueView;
use num_bigint::BigInt;
use std::rc::Rc;
use vstd::prelude::*;

verus! {

/// A native shape: a type whose values cross the boundary as a `Value` and
/// come back unchanged.
pub trait Native: Sized {
    /// The interpreter value that a native value is written as.
    spec fn encoding(&self) -> ValueView;

    /// Whether an interpreter value carries this shape.
    spec fn admits(v: ValueView) -> bool;

    /// Whether two native values are the same value.
    spec fn same(&self, other: &Self) -> bool;

    /// What a native value is written as carries its shape.
    proof fn lemma_encoding_admitted(&self)
        ensures
            Self::admits(self.encoding()),
    ;

    /// Two native values are written alike exactly when they are the same.
    proof fn lemma_encoding_injective(&self, other: &Self)
        ensures
            self.encoding() == other.encoding() <==> self.same(other),
    ;

    /// Whether a value carries this shape, decided at run time.
    fn accepts(v: &Value) -> (ok: bool)
        ensures
            ok == Self::admits(v@),
    ;

    /// Write conversion: total.
    fn write(self) -> (v: Value)
        ensures
            v@ == self.encoding(),
    ;

    /// Read conversion: defined on the values that carry the shape.
    fn read(v: &Value) -> (x: Self)
        requires
            Self::admits(v@),
        ensures
            x.encoding() == v@,
    ;
}

impl Native for () {
    open spec fn encoding(&self) -> ValueView {
        ValueView::Unit
    }

    open spec fn admits(v: ValueView) -> bool {
        v is Unit
    }

    open spec fn same(&self, other: &Self) -> bool {
        true
    }

    proof fn lemma_encoding_admitted(&self) {
    }

    proof fn lemma_encoding_injective(&self, other: &Self) {
    }

    fn accepts(v: &Value) -> (ok: bool) {
        match v {
            Value::Unit => true,
            _ => false,
        }
    }

    fn write(self) -> (v: Value) {
        Value::Unit
    }

    fn read(v: &Value) -> (x: Self) {
        ()
    }
}

impl Native for bool {
    open spec fn encoding(&self) -> ValueView {
        ValueView::Bool(*self)
    }

    open spec fn admits(v: ValueView) -> bool {
        v is Bool
    }

    open spec fn same(&self, other: &Self) -> bool {
        *self == *other
    }

    proof fn lemma_encoding_admitted(&self) {
    }

    proof fn lemma_encoding_injective(&self, other: &Self) {
    }

    fn accepts(v: &Value) -> (ok: bool) {
        match v {
            Value::Bool(_) => true,
            _ => false,
        }
    }

    fn write(self) -> (v: Value) {
        Value::Bool(self)
    }

    fn read(v: &Value) -> (x: Self) {
        match v {
            Value::Bool(n) => *n,
            _ => unreached(),
        }
    }
}

impl Native for u8 {
    open spec fn encoding(&self) -> ValueView {
        ValueView::U8(*self)
    }

    open spec fn admits(v: ValueView) -> bool {
        v is U8
    }

    open spec fn same(&self, other: &Self) -> bool {
        *self == *other
    }

    proof fn lemma_encoding_admitted(&self) {
    }

    proof fn lemma_encoding_injective(&self, other: &Self) {
    }

    fn accepts(v: &Value) -> (ok: bool) {
        match v {
            Value::U8(_) => true,
            _ => false,
        }
    }

    fn write(self) -> (v: Value) {
        Value::U8(self)
    }

    fn read(v: &Value) -> (x: Self) {
        match v {
            Value::U8(n) => *n,
            _ => unreached(),
        }
    }
}

impl Native for u16 {
    open spec fn encoding(&self) -> ValueView {
        ValueView::U16(*self)
    }

    open spec fn admits(v: ValueView) -> bool {
        v is U16
    }

    open spec fn same(&self, other: &Self) -> bool {
        *self == *other
    }

    proof fn lemma_encoding_admitted(&self) {
    }

    proof fn lemma_encoding_injective(&self, other: &Self) {
    }

    fn accepts(v: &Value) -> (ok: bool) {
        match v {
            Value::U16(_) => true,
            _ => false,
        }
    }

    fn write(self) -> (v: Value) {
        Value::U16(self)
    }

    fn read(v: &Value) -> (x: Self) {
        match v {
            Value::U16(n) => *n,
            _ => unreached(),
        }
    }
}

impl Native for u32 {
    open spec fn encoding(&self) -> ValueView {
        ValueView::U32(*self)
    }

    open spec fn admits(v: ValueView) -> bool {
        v is U32
    }

    open spec fn same(&self, other: &Self) -> bool {
        *self == *other
    }

    proof fn lemma_encoding_admitted(&self) {
    }

    proof fn lemma_encoding_injective(&self, other: &Self) {
    }

    fn accepts(v: &Value) -> (ok: bool) {
        match v {
            Value::U32(_) => true,
            _ => false,
        }
    }

    fn write(self) -> (v: Value) {
        Value::U32(self)
    }

    fn read(v: &Value) -> (x: Self) {
        match v {
            Value::U32(n) => *n,
            _ => unreached(),
        }
    }
}

impl Native for u64 {
    open spec fn encoding(&self) -> ValueView {
        ValueView::U64(*self)
    }

    open spec fn admits(v: ValueView) -> bool {
        v is U64
    }

    open spec fn same(&self, other: &Self) -> bool {
        *self == *other
    }

    proof fn lemma_encoding_admitted(&self) {
    }

    proof fn lemma_encoding_injective(&self, other: &Self) {
    }

    fn accepts(v: &Value) -> (ok: bool) {
        match v {
            Value::U64(_) => true,
            _ => false,
        }
    }

    fn write(self) -> (v: Value) {
        Value::U64(self)
    }

    fn read(v: &Value) -> (x: Self) {
        match v {
            Value::U64(n) => *n,
            _ => unreached(),
        }
    }
}

impl Native for u128 {
    open spec fn encoding(&self) -> ValueView {
        ValueView::U128(*self)
    }

    open spec fn admits(v: ValueView) -> bool {
        v is U128
    }

    open spec fn same(&self, other: &Self) -> bool {
        *self == *other
    }

    proof fn lemma_encoding_admitted(&self) {
    }

    proof fn lemma_encoding_injective(&self, other: &Self) {
    }

    fn accepts(v: &Value) -> (ok: bool) {
        match v {
            Value::U128(_) => true,
            _ => false,
        }
    }

    fn write(self) -> (v: Value) {
        Value::U128(self)
    }

    fn read(v: &Value) -> (x: Self) {
        match v {
            Value::U128(n) => *n,
            _ => unreached(),
        }
    }
}

impl Native for BigInt {
    open spec fn encoding(&self) -> ValueView {
        ValueView::Int(int_of(*self))
    }

    open spec fn admits(v: ValueView) -> bool {
        v is Int
    }

    open spec fn same(&self, other: &Self) -> bool {
        int_of(*self) == int_of(*other)
    }

    proof fn lemma_encoding_admitted(&self) {
    }

    proof fn lemma_encoding_injective(&self, other: &Self) {
    }

    fn accepts(v: &Value) -> (ok: bool) {
        match v {
            Value::Int(_) => true,
            _ => false,
        }
    }

    fn write(self) -> (v: Value) {
        Value::Int(Rc::new(self))
    }

    fn read(v: &Value) -> (x: Self) {
        match v {
            Value::Int(n) => big_clone(n),
            _ => unreached(),
        }
    }
}

impl Native for String {
    open spec fn encoding(&self) -> ValueView {
        ValueView::Text(self@)
    }

    open spec fn admits(v: ValueView) -> bool {
        v is Text
    }

    open spec fn same(&self, other: &Self) -> bool {
        self@ == other@
    }

    proof fn lemma_encoding_admitted(&self) {
    }

    proof fn lemma_encoding_injective(&self, other: &Self) {
    }

    fn accepts(v: &Value) -> (ok: bool) {
        match v {
            Value::Text(_) => true,
            _ => false,
        }
    }

    fn write(self) -> (v: Value) {
        Value::Text(Rc::new(self))
    }

    fn read(v: &Value) -> (x: Self) {
        match v {
            Value::Text(s) => {
                let text: &String = s;
                text.clone()
            },
            _ => unreached(),
        }
    }
}

/// The shape that every value carries: the value itself, for the items of
/// aggregates whose shape the native side does not look into.
impl Native for Value {
    open spec fn encoding(&self) -> ValueView {
        self@
    }

    open spec fn admits(v: ValueView) -> bool {
        true
    }

    open spec fn same(&self, other: &Self) -> bool {
        self@ == other@
    }

    proof fn lemma_encoding_admitted(&self) {
    }

    proof fn lemma_encoding_injective(&self, other: &Self) {
    }

    fn accepts(v: &Value) -> (ok: bool) {
        true
    }

    fn write(self) -> (v: Value) {
        self
    }

    fn read(v: &Value) -> (x: Self) {
        v.clone()
    }
}

impl<T: Native> Native for Vec<T> {
    open spec fn encoding(&self) -> ValueView {
        ValueView::List(Seq::new(self@.len(), |i: int| self@[i].encoding()))
    }

    open spec fn admits(v: ValueView) -> bool {
        &&& v is List
        &&& forall|i: int| 0 <= i < v->List_0.len() ==> T::admits(#[trigger] v->List_0[i])
    }

    open spec fn same(&self, other: &Self) -> bool {
        &&& self@.len() == other@.len()
        &&& forall|i: int| 0 <= i < self@.len() ==> (#[trigger] self@[i]).same(&other@[i])
    }

    proof fn lemma_encoding_admitted(&self) {
        assert forall|i: int| 0 <= i < self@.len() implies T::admits(
            #[trigger] self.encoding()->List_0[i],
        ) by {
            self@[i].lemma_encoding_admitted();
        }
    }

    proof fn lemma_encoding_injective(&self, other: &Self) {
        let a = self.encoding()->List_0;
        let b = other.encoding()->List_0;
        assert(a.len() == self@.len() && b.len() == other@.len());
        if self.encoding() == other.encoding() {
            assert(a == b);
            assert forall|i: int| 0 <= i < self@.len() implies (#[trigger] self@[i]).same(
                &other@[i],
            ) by {
                assert(a[i] == self@[i].encoding());
                assert(b[i] == other@[i].encoding());
                self@[i].lemma_encoding_injective(&other@[i]);
            }
        }
        if self.same(other) {
            assert forall|i: int| 0 <= i < a.len() implies a[i] == b[i] by {
                assert(self@[i].same(&other@[i]));
                self@[i].lemma_encoding_injective(&other@[i]);
            }
            assert(a =~= b);
        }
    }

    fn accepts(v: &Value) -> (ok: bool) {
        match v {
            Value::List(items) => {
                let n = items.len();
                let mut i: usize = 0;
                while i < n
                    invariant
                        n == items@.len(),
                        i <= n,
                        v@ == ValueView::List(views(items@)),
                        forall|k: int| 0 <= k < i ==> T::admits(#[trigger] v@->List_0[k]),
                    decreases n - i,
                {
                    if !T::accepts(&items[i]) {
                        assert(!T::admits(v@->List_0[i as int]));
                        return false;
                    }
                    i = i + 1;
                }
                true
            },
            _ => false,
        }
    }

    fn write(self) -> (v: Value) {
        let ghost whole = self@;
        let mut items: Vec<Value> = Vec::new();
        for x in it: self
            invariant
                it.seq() == whole,
                items@.len() == it.index(),
                forall|k: int|
                    0 <= k < items@.len() ==> (#[trigger] items@[k])@ == whole[k].encoding(),
        {
            items.push(x.write());
        }
        let v = Value::List(Rc::new(items));
        assert(v@->List_0 =~= self.encoding()->List_0);
        v
    }

    fn read(v: &Value) -> (x: Self) {
        match v {
            Value::List(items) => {
                let mut out: Vec<T> = Vec::new();
                let n = items.len();
                let mut i: usize = 0;
                while i < n
                    invariant
                        n == items@.len(),
                        i <= n,
                        out@.len() == i,
                        v@ == ValueView::List(views(items@)),
                        Self::admits(v@),
                        forall|k: int| 0 <= k < i ==> (#[trigger] out@[k]).encoding() == items@[k]@,
                    decreases n - i,
                {
                    assert(T::admits(v@->List_0[i as int]));
                    let x = T::read(&items[i]);
                    out.push(x);
                    i = i + 1;
                }
                assert(out.encoding()->List_0 =~= v@->List_0);
                out
            },
            _ => unreached(),
        }
    }
}

impl<A: Native, B: Native> Native for (A, B) {
    open spec fn encoding(&self) -> ValueView {
        ValueView::Tuple(seq![self.0.encoding(), self.1.encoding()])
    }

    open spec fn admits(v: ValueView) -> bool {
        &&& v is Tuple
        &&& v->Tuple_0.len() == 2
        &&& A::admits(v->Tuple_0[0])
        &&& B::admits(v->Tuple_0[1])
    }

    open spec fn same(&self, other: &Self) -> bool {
        &&& self.0.same(&other.0)
        &&& self.1.same(&other.1)
    }

    proof fn lemma_encoding_admitted(&self) {
        self.0.lemma_encoding_admitted();
        self.1.lemma_encoding_admitted();
    }

    proof fn lemma_encoding_injective(&self, other: &Self) {
        let a = self.encoding()->Tuple_0;
        let b = other.encoding()->Tuple_0;
        self.0.lemma_encoding_injective(&other.0);
        self.1.lemma_encoding_injective(&other.1);
        if self.encoding() == other.encoding() {
            assert(a[0] == b[0]);
            assert(a[1] == b[1]);
        }
        if self.same(other) {
            assert(a =~= b);
        }
    }

    fn accepts(v: &Value) -> (ok: bool) {
        match v {
            Value::Tuple(items) => {
                assert(v@->Tuple_0 == views(items@));
                items.len() == 2 && A::accepts(&items[0]) && B::accepts(&items[1])
            },
            _ => false,
        }
    }

    fn write(self) -> (v: Value) {
        let mut items: Vec<Value> = Vec::new();
        items.push(self.0.write());
        items.push(self.1.write());
        let v = Value::Tuple(Rc::new(items));
        assert(v@->Tuple_0 =~= self.encoding()->Tuple_0);
        v
    }

    fn read(v: &Value) -> (x: Self) {
        match v {
            Value::Tuple(items) => {
                assert(v@->Tuple_0 == views(items@));
                let x0 = A::read(&items[0]);
                let x1 = B::read(&items[1]);
                let x = (x0, x1);
                assert(x.encoding()->Tuple_0 =~= v@->Tuple_0);
                x
            },
            _ => unreached(),
        }
    }
}

impl<A: Native, B: Native, C: Native> Native for (A, B, C) {
    open spec fn encoding(&self) -> ValueView {
        ValueView::Tuple(seq![self.0.encoding(), self.1.encoding(), self.2.encoding()])
    }

    open spec fn admits(v: ValueView) -> bool {
        &&& v is Tuple
        &&& v->Tuple_0.len() == 3
        &&& A::admits(v->Tuple_0[0])
        &&& B::admits(v->Tuple_0[1])
        &&& C::admits(v->Tuple_0[2])
    }

    open spec fn same(&self, other: &Self) -> bool {
        &&& self.0.same(&other.0)
        &&& self.1.same(&other.1)
        &&& self.2.same(&other.2)
    }

    proof fn lemma_encoding_admitted(&self) {
        self.0.lemma_encoding_admitted();
        self.1.lemma_encoding_admitted();
        self.2.lemma_encoding_admitted();
    }

    proof fn lemma_encoding_injective(&self, other: &Self) {
        let a = self.encoding()->Tuple_0;
        let b = other.encoding()->Tuple_0;
        self.0.lemma_encoding_injective(&other.0);
        self.1.lemma_encoding_injective(&other.1);
        self.2.lemma_encoding_injective(&other.2);
        if self.encoding() == other.encoding() {
            assert(a[0] == b[0]);
            assert(a[1] == b[1]);
            assert(a[2] == b[2]);
        }
        if self.same(other) {
            assert(a =~= b);
        }
    }

    fn accepts(v: &Value) -> (ok: bool) {
        match v {
            Value::Tuple(items) => {
                assert(v@->Tuple_0 == views(items@));
                items.len() == 3 && A::accepts(&items[0]) && B::accepts(&items[1]) && C::accepts(&items[2])
            },
            _ => false,
        }
    }

    fn write(self) -> (v: Value) {
        let mut items: Vec<Value> = Vec::new();
        items.push(self.0.write());
        items.push(self.1.write());
        items.push(self.2.write());
        let v = Value::Tuple(Rc::new(items));
        assert(v@->Tuple_0 =~= self.encoding()->Tuple_0);
        v
    }

    fn read(v: &Value) -> (x: Self) {
        match v {
            Value::Tuple(items) => {
                assert(v@->Tuple_0 == views(items@));
                let x0 = A::read(&items[0]);
                let x1 = B::read(&items[1]);
                let x2 = C::read(&items[2]);
                let x = (x0, x1, x2);
                assert(x.encoding()->Tuple_0 =~= v@->Tuple_0);
                x
            },
            _ => unreached(),
        }
    }
}

impl<A: Native, B: Native, C: Native, D: Native> Native for (A, B, C, D) {
    open spec fn encoding(&self) -> ValueView {
        ValueView::Tuple(seq![self.0.encoding(), self.1.encoding(), self.2.encoding(), self.3.encoding()])
    }

    open spec fn admits(v: ValueView) -> bool {
        &&& v is Tuple
        &&& v->Tuple_0.len() == 4
        &&& A::admits(v->Tuple_0[0])
        &&& B::admits(v->Tuple_0[1])
        &&& C::admits(v->Tuple_0[2])
        &&& D::admits(v->Tuple_0[3])
    }

    open spec fn same(&self, other: &Self) -> bool {
        &&& self.0.same(&other.0)
        &&& self.1.same(&other.1)
        &&& self.2.same(&other.2)
        &&& self.3.same(&other.3)
    }

    proof fn lemma_encoding_admitted(&self) {
        self.0.lemma_encoding_admitted();
        self.1.lemma_encoding_admitted();
        self.2.lemma_encoding_admitted();
        self.3.lemma_encoding_admitted();
    }

    proof fn lemma_encoding_injective(&self, other: &Self) {
        let a = self.encoding()->Tuple_0;
        let b = other.encoding()->Tuple_0;
        self.0.lemma_encoding_injective(&other.0);
        self.1.lemma_encoding_injective(&other.1);
        self.2.lemma_encoding_injective(&other.2);
        self.3.lemma_encoding_injective(&other.3);
        if self.encoding() == other.encoding() {
            assert(a[0] == b[0]);
            assert(a[1] == b[1]);
            assert(a[2] == b[2]);
            assert(a[3] == b[3]);
        }
        if self.same(other) {
            assert(a =~= b);
        }
    }

    fn accepts(v: &Value) -> (ok: bool) {
        match v {
            Value::Tuple(items) => {
                assert(v@->Tuple_0 == views(items@));
                items.len() == 4 && A::accepts(&items[0]) && B::accepts(&items[1]) && C::accepts(&items[2]) && D::accepts(&items[3])
            },
            _ => false,
        }
    }

    fn write(self) -> (v: Value) {
        let mut items: Vec<Value> = Vec::new();
        items.push(self.0.write());
        items.push(self.1.write());
        items.push(self.2.write());
        items.push(self.3.write());
        let v = Value::Tuple(Rc::new(items));
        assert(v@->Tuple_0 =~= self.encoding()->Tuple_0);
        v
    }

    fn read(v: &Value) -> (x: Self) {
        match v {
            Value::Tuple(items) => {
                assert(v@->Tuple_0 == views(items@));
                let x0 = A::read(&items[0]);
                let x1 = B::read(&items[1]);
                let x2 = C::read(&items[2]);
                let x3 = D::read(&items[3]);
                let x = (x0, x1, x2, x3);
                assert(x.encoding()->Tuple_0 =~= v@->Tuple_0);
                x
            },
            _ => unreached(),
        }
    }
}

impl<A: Native, B: Native, C: Native, D: Native, E: Native> Native for (A, B, C, D, E) {
    open spec fn encoding(&self) -> ValueView {
        ValueView::Tuple(seq![self.0.encoding(), self.1.encoding(), self.2.encoding(), self.3.encoding(), self.4.encoding()])
    }

    open spec fn admits(v: ValueView) -> bool {
        &&& v is Tuple
        &&& v->Tuple_0.len() == 5
        &&& A::admits(v->Tuple_0[0])
        &&& B::admits(v->Tuple_0[1])
        &&& C::admits(v->Tuple_0[2])
        &&& D::admits(v->Tuple_0[3])
        &&& E::admits(v->Tuple_0[4])
    }

    open spec fn same(&self, other: &Self) -> bool {
        &&& self.0.same(&other.0)
        &&& self.1.same(&other.1)
        &&& self.2.same(&other.2)
        &&& self.3.same(&other.3)
        &&& self.4.same(&other.4)
    }

    proof fn lemma_encoding_admitted(&self) {
        self.0.lemma_encoding_admitted();
        self.1.lemma_encoding_admitted();
        self.2.lemma_encoding_admitted();
        self.3.lemma_encoding_admitted();
        self.4.lemma_encoding_admitted();
    }

    proof fn lemma_encoding_injective(&self, other: &Self) {
        let a = self.encoding()->Tuple_0;
        let b = other.encoding()->Tuple_0;
        self.0.lemma_encoding_injective(&other.0);
        self.1.lemma_encoding_injective(&other.1);
        self.2.lemma_encoding_injective(&other.2);
        self.3.lemma_encoding_injective(&other.3);
        self.4.lemma_encoding_injective(&other.4);
        if self.encoding() == other.encoding() {
            assert(a[0] == b[0]);
            assert(a[1] == b[1]);
            assert(a[2] == b[2]);
            assert(a[3] == b[3]);
            assert(a[4] == b[4]);
        }
        if self.same(other) {
            assert(a =~= b);
        }
    }

    fn accepts(v: &Value) -> (ok: bool) {
        match v {
            Value::Tuple(items) => {
                assert(v@->Tuple_0 == views(items@));
                items.len() == 5 && A::accepts(&items[0]) && B::accepts(&items[1]) && C::accepts(&items[2]) && D::accepts(&items[3]) && E::accepts(&items[4])
            },
            _ => false,
        }
    }

    fn write(self) -> (v: Value) {
        let mut items: Vec<Value> = Vec::new();
        items.push(self.0.write());
        items.push(self.1.write());
        items.push(self.2.write());
        items.push(self.3.write());
        items.push(self.4.write());
        let v = Value::Tuple(Rc::new(items));
        assert(v@->Tuple_0 =~= self.encoding()->Tuple_0);
        v
    }

    fn read(v: &Value) -> (x: Self) {
        match v {
            Value::Tuple(items) => {
                assert(v@->Tuple_0 == views(items@));
                let x0 = A::read(&items[0]);
                let x1 = B::read(&items[1]);
                let x2 = C::read(&items[2]);
                let x3 = D::read(&items[3]);
                let x4 = E::read(&items[4]);
                let x = (x0, x1, x2, x3, x4);
                assert(x.encoding()->Tuple_0 =~= v@->Tuple_0);
                x
            },
            _ => unreached(),
        }
    }
}

/// Round trip: whatever value a native value is written as carries its
/// shape, and whatever is read back from that value is the native value
/// again.
pub proof fn lemma_round_trip<T: Native>(x: T, v: Value, y: T)
    requires
        v@ == x.encoding(),
        y.encoding() == v@,
    ensures
        T::admits(v@),
        y.same(&x),
{
    x.lemma_encoding_admitted();
    y.lemma_encoding_injective(&x);
}

} // verus!
