//! The numeric codec between field elements and centered signed integers,
//! on single elements and on matrices, under domain visibility.
//!
//! A signed integer crosses the boundary as the `u128` with the same bits.

use crate::context::ContextRef;
use crate::context::DomainType;
use crate::context::Stack;
use crate::integer::big_from_i128;
use crate::integer::big_to_i128;
use crate::integer::fits_i128;
use crate::modulus::reduced;
use crate::modulus::NatType;
use crate::shape::Native;
use crate::value::lemma_views_push;
use crate::value::views;
use crate::value::Value;
use crate::value::ValueView;
use num_bigint::BigInt;
use vstd::prelude::*;

verus! {

/// The number of values of a `u128`.
pub open spec fn two_to_128() -> int {
    u128::MAX + 1
}

/// The residue `x` modulo `m`, centered on zero: itself in the lower half
/// of the range, less `m` in the upper half.
pub open spec fn centered(m: int, x: int) -> int {
    if x < m / 2 {
        x
    } else {
        x - m
    }
}

/// The `u128` with the bits of a signed integer in two's complement.
pub open spec fn bits_of(y: int) -> u128 {
    if y >= 0 {
        y as u128
    } else {
        (y + two_to_128()) as u128
    }
}

/// The signed integer whose bits in two's complement a `u128` holds.
pub open spec fn signed_of(u: u128) -> int {
    if u <= i128::MAX {
        u as int
    } else {
        u - two_to_128()
    }
}

/// The `u128` with the bits of `y`.
pub fn to_bits(y: i128) -> (u: u128)
    ensures
        u == bits_of(y as int),
{
    if y >= 0 {
        y as u128
    } else {
        u128::MAX - ((-(y + 1)) as u128)
    }
}

/// The `i128` with the bits of `u`.
pub fn from_bits(u: u128) -> (y: i128)
    ensures
        y == signed_of(u),
{
    if u <= i128::MAX as u128 {
        u as i128
    } else {
        -((u128::MAX - u) as i128) - 1
    }
}

/// A signed integer survives the passage through its bits, and so do the
/// bits through the signed integer.
pub proof fn lemma_bits_round_trip(y: int, u: u128)
    ensures
        fits_i128(y) ==> signed_of(bits_of(y)) == y,
        fits_i128(signed_of(u)),
        bits_of(signed_of(u)) == u,
{
}

/// Modulus to signed: the field element `x` of the modulus `m`, centered.
pub fn decode(m: i128, x: i128) -> (y: i128)
    requires
        m > 0,
    ensures
        y == centered(m as int, x as int),
{
    let half_m: i128 = m / 2;
    if x >= half_m {
        x - m
    } else {
        x
    }
}

/// Signed to modulus: the value of the numeric type `m` that stands for
/// the signed integer `v`.
pub fn encode(m: &NatType, v: i128) -> (x: Value)
    ensures
        x@ == ValueView::Int(reduced(m.modulus_int(), v as int)),
{
    let n = big_from_i128(v);
    m.from_bigint(&n)
}

/// Encoding undoes decoding: a residue that was centered is reduced to
/// itself again.
pub proof fn lemma_encode_decode(m: int, x: int)
    requires
        0 <= x < m,
    ensures
        reduced(Some(m), centered(m, x)) == x,
{
    if x < m / 2 {
        vstd::arithmetic::div_mod::lemma_small_mod(x as nat, m as nat);
    } else {
        vstd::arithmetic::div_mod::lemma_mod_add_multiples_vanish(x - m, m);
        vstd::arithmetic::div_mod::lemma_small_mod(x as nat, m as nat);
    }
}

/// A centered residue lies within half the modulus of zero: below zero by
/// at most the upper half of the range, above it by less than the lower.
pub proof fn lemma_centered_range(m: int, x: int)
    requires
        0 <= x < m,
    ensures
        m / 2 - m <= centered(m, x) < m / 2,
{
}

/// What one element decodes to: the bits of its centered value where the
/// data is visible, zero where it is not.
pub open spec fn decoded_item(visible: bool, m: Option<int>, x: ValueView) -> ValueView {
    if visible {
        ValueView::U128(bits_of(centered(m->Some_0, x->Int_0)))
    } else {
        ValueView::U128(0)
    }
}

/// What a row decodes to: a list of what its elements decode to.
pub open spec fn decoded_row(visible: bool, m: Option<int>, row: ValueView) -> ValueView {
    ValueView::List(row.items().map_values(|x: ValueView| decoded_item(visible, m, x)))
}

/// What a matrix decodes to, row by row.
pub open spec fn decoded_matrix(visible: bool, m: Option<int>, rows: Seq<ValueView>) -> Seq<
    ValueView,
> {
    rows.map_values(|row: ValueView| decoded_row(visible, m, row))
}

/// Whether an element can be decoded: it is an integer in the range of
/// `i128`.
pub open spec fn decodable_item(x: ValueView) -> bool {
    x is Int && fits_i128(x->Int_0)
}

/// Whether a row can be decoded: it is a list, and where the data is
/// visible each of its elements can be decoded.
pub open spec fn decodable_row(visible: bool, row: ValueView) -> bool {
    &&& row is List
    &&& visible ==> forall|j: int|
        0 <= j < row.items().len() ==> decodable_item(#[trigger] row.items()[j])
}

/// Whether a matrix can be decoded: each row can, and where the data is
/// visible the modulus is there and in the range of `i128`.
pub open spec fn decodable(visible: bool, m: Option<int>, rows: Seq<ValueView>) -> bool {
    &&& visible ==> m is Some && fits_i128(m->Some_0)
    &&& forall|i: int| 0 <= i < rows.len() ==> decodable_row(visible, #[trigger] rows[i])
}

/// What one element encodes to: the value of the numeric type that stands
/// for the signed integer in its bits where the data is visible, the
/// placeholder where it is not.
pub open spec fn encoded_item(visible: bool, m: Option<int>, x: ValueView) -> ValueView {
    if visible {
        ValueView::Int(reduced(m, signed_of(x->U128_0)))
    } else {
        ValueView::Unknown
    }
}

/// What a row encodes to: a list of what its elements encode to.
pub open spec fn encoded_row(visible: bool, m: Option<int>, row: ValueView) -> ValueView {
    ValueView::List(row.items().map_values(|x: ValueView| encoded_item(visible, m, x)))
}

/// What a matrix encodes to, row by row.
pub open spec fn encoded_matrix(visible: bool, m: Option<int>, rows: Seq<ValueView>) -> Seq<
    ValueView,
> {
    rows.map_values(|row: ValueView| encoded_row(visible, m, row))
}

/// Whether a row can be encoded: it is a list, and where the data is
/// visible each of its elements is a `u128`.
pub open spec fn encodable_row(visible: bool, row: ValueView) -> bool {
    &&& row is List
    &&& visible ==> forall|j: int| 0 <= j < row.items().len() ==> (#[trigger] row.items()[j]) is U128
}

/// Whether a matrix can be encoded: each row can.
pub open spec fn encodable(visible: bool, rows: Seq<ValueView>) -> bool {
    forall|i: int| 0 <= i < rows.len() ==> encodable_row(visible, #[trigger] rows[i])
}

/// Decoding keeps the shape of a matrix: as many rows, each a list as long
/// as the row it comes from.
pub proof fn lemma_decoded_shape(visible: bool, m: Option<int>, rows: Seq<ValueView>)
    ensures
        decoded_matrix(visible, m, rows).len() == rows.len(),
        forall|i: int|
            0 <= i < rows.len() ==> {
                &&& (#[trigger] decoded_matrix(visible, m, rows)[i]) is List
                &&& decoded_matrix(visible, m, rows)[i].items().len() == rows[i].items().len()
            },
{
}

/// Encoding keeps the shape of a matrix: as many rows, each a list as long
/// as the row it comes from.
pub proof fn lemma_encoded_shape(visible: bool, m: Option<int>, rows: Seq<ValueView>)
    ensures
        encoded_matrix(visible, m, rows).len() == rows.len(),
        forall|i: int|
            0 <= i < rows.len() ==> {
                &&& (#[trigger] encoded_matrix(visible, m, rows)[i]) is List
                &&& encoded_matrix(visible, m, rows)[i].items().len() == rows[i].items().len()
            },
{
}

/// Where the data is not visible, every element of the decoded matrix is
/// zero, whatever the matrix holds.
pub proof fn lemma_hidden_decodes_to_zeros(m: Option<int>, rows: Seq<ValueView>)
    ensures
        forall|i: int, j: int|
            0 <= i < rows.len() && 0 <= j < rows[i].items().len() ==> #[trigger] decoded_matrix(
                false,
                m,
                rows,
            )[i].items()[j] == ValueView::U128(0),
{
}

/// Where the data is not visible, every element of the encoded matrix is
/// the placeholder, whatever the matrix holds.
pub proof fn lemma_hidden_encodes_to_unknowns(m: Option<int>, rows: Seq<ValueView>)
    ensures
        forall|i: int, j: int|
            0 <= i < rows.len() && 0 <= j < rows[i].items().len() ==> #[trigger] encoded_matrix(
                false,
                m,
                rows,
            )[i].items()[j] == ValueView::Unknown,
{
}

/// Whether a matrix holds residues of the modulus `m` only: each row is a
/// list of integers from zero up to, and without, `m`.
pub open spec fn residues(m: int, rows: Seq<ValueView>) -> bool {
    forall|i: int|
        0 <= i < rows.len() ==> {
            &&& (#[trigger] rows[i]) is List
            &&& forall|j: int|
                0 <= j < rows[i].items().len() ==> {
                    &&& (#[trigger] rows[i].items()[j]) is Int
                    &&& 0 <= rows[i].items()[j]->Int_0 < m
                }
        }
}

/// Encoding undoes decoding on matrices: a matrix of residues of a modulus
/// in the range of `i128`, visible to the running party, can be decoded,
/// what it decodes to can be encoded, and that encodes to the matrix again.
pub proof fn lemma_matrix_round_trip(m: int, rows: Seq<ValueView>)
    requires
        fits_i128(m),
        residues(m, rows),
    ensures
        decodable(true, Some(m), rows),
        encodable(true, decoded_matrix(true, Some(m), rows)),
        encoded_matrix(true, Some(m), decoded_matrix(true, Some(m), rows)) == rows,
{
    let mid = decoded_matrix(true, Some(m), rows);
    let back = encoded_matrix(true, Some(m), mid);
    assert forall|i: int| 0 <= i < rows.len() implies back[i] == rows[i] by {
        let row = rows[i].items();
        assert(rows[i] == ValueView::List(row));
        assert forall|j: int| 0 <= j < row.len() implies back[i].items()[j] == row[j] by {
            let x = row[j]->Int_0;
            assert(row[j] == ValueView::Int(x));
            lemma_centered_range(m, x);
            lemma_bits_round_trip(centered(m, x), 0);
            lemma_encode_decode(m, x);
        }
        assert(back[i].items() =~= row);
    }
    assert(back =~= rows);
}

fn encode_row(m: &NatType, row: &Value) -> (out: Value)
    requires
        encodable_row(true, row@),
    ensures
        out@ == encoded_row(true, m.modulus_int(), row@),
{
    let items = row.items();
    let n = items.len();
    let mut ys: Vec<Value> = Vec::new();
    let mut j: usize = 0;
    while j < n
        invariant
            n == items@.len(),
            j <= n,
            views(items@) == row@.items(),
            encodable_row(true, row@),
            ys@.len() == j,
            forall|k: int|
                0 <= k < j ==> (#[trigger] ys@[k])@ == encoded_item(
                    true,
                    m.modulus_int(),
                    row@.items()[k],
                ),
        decreases n - j,
    {
        assert(row@.items()[j as int] is U128);
        assert(items@[j as int]@ == row@.items()[j as int]);
        let x = u128::read(&items[j]);
        ys.push(encode(m, from_bits(x)));
        j = j + 1;
    }
    let out = Value::list(ys);
    assert(out@->List_0 =~= encoded_row(true, m.modulus_int(), row@)->List_0);
    out
}

fn unknown_row(ctx: &ContextRef, m: &NatType, row: &Value) -> (out: Value)
    requires
        row@ is List,
    ensures
        out@ == encoded_row(false, m.modulus_int(), row@),
{
    let nc = row.len();
    let mut ys: Vec<Value> = Vec::with_capacity(nc);
    let unknown = ctx.unknown();
    ys.resize(nc, unknown);
    assert forall|k: int| 0 <= k < nc implies (#[trigger] ys@[k])@ == ValueView::Unknown by {
        assert(cloned::<Value>(unknown, ys@[k]));
    }
    let out = Value::list(ys);
    assert(out@->List_0 =~= encoded_row(false, m.modulus_int(), row@)->List_0);
    out
}

fn can_decode_row(visible: bool, row: &Value) -> (ok: bool)
    ensures
        ok == decodable_row(visible, row@),
{
    if !row.is_list() {
        return false;
    }
    if !visible {
        return true;
    }
    let items = row.items();
    let n = items.len();
    let mut j: usize = 0;
    while j < n
        invariant
            n == items@.len(),
            j <= n,
            visible,
            row@ is List,
            views(items@) == row@.items(),
            forall|k: int| 0 <= k < j ==> decodable_item(#[trigger] row@.items()[k]),
        decreases n - j,
    {
        assert(items@[j as int]@ == row@.items()[j as int]);
        if !BigInt::accepts(&items[j]) {
            assert(!decodable_item(row@.items()[j as int]));
            return false;
        }
        if big_to_i128(items[j].as_int()).is_none() {
            assert(!decodable_item(row@.items()[j as int]));
            return false;
        }
        j = j + 1;
    }
    true
}

/// Whether a matrix can be decoded under the modulus `m`, for data of
/// domain `d`, decided at run time.
pub fn can_decode(ctx: &ContextRef, m: &NatType, d: DomainType, xss: &Vec<Value>) -> (ok: bool)
    ensures
        ok == decodable(d.visible_in(ctx.current_domain), m.modulus_int(), views(xss@)),
{
    let visible = d.visible_in(ctx.current_domain);
    if visible {
        match m.modulus() {
            None => {
                return false;
            },
            Some(k) => {
                if big_to_i128(k).is_none() {
                    return false;
                }
            },
        }
    }
    let ghost rows = views(xss@);
    let n = xss.len();
    let mut i: usize = 0;
    while i < n
        invariant
            n == xss@.len(),
            i <= n,
            rows == views(xss@),
            visible == d.visible_in(ctx.current_domain),
            forall|k: int| 0 <= k < i ==> decodable_row(visible, #[trigger] rows[k]),
        decreases n - i,
    {
        if !can_decode_row(visible, &xss[i]) {
            assert(!decodable_row(visible, rows[i as int]));
            return false;
        }
        i = i + 1;
    }
    true
}

fn can_encode_row(visible: bool, row: &Value) -> (ok: bool)
    ensures
        ok == encodable_row(visible, row@),
{
    if !row.is_list() {
        return false;
    }
    if !visible {
        return true;
    }
    let items = row.items();
    let n = items.len();
    let mut j: usize = 0;
    while j < n
        invariant
            n == items@.len(),
            j <= n,
            visible,
            row@ is List,
            views(items@) == row@.items(),
            forall|k: int| 0 <= k < j ==> (#[trigger] row@.items()[k]) is U128,
        decreases n - j,
    {
        assert(items@[j as int]@ == row@.items()[j as int]);
        if !u128::accepts(&items[j]) {
            assert(!(row@.items()[j as int] is U128));
            return false;
        }
        j = j + 1;
    }
    true
}

/// Whether a matrix can be encoded, for data of domain `d`, decided at run
/// time.
pub fn can_encode(ctx: &ContextRef, d: DomainType, xss: &Vec<Value>) -> (ok: bool)
    ensures
        ok == encodable(d.visible_in(ctx.current_domain), views(xss@)),
{
    let visible = d.visible_in(ctx.current_domain);
    let ghost rows = views(xss@);
    let n = xss.len();
    let mut i: usize = 0;
    while i < n
        invariant
            n == xss@.len(),
            i <= n,
            rows == views(xss@),
            visible == d.visible_in(ctx.current_domain),
            forall|k: int| 0 <= k < i ==> encodable_row(visible, #[trigger] rows[k]),
        decreases n - i,
    {
        if !can_encode_row(visible, &xss[i]) {
            assert(!encodable_row(visible, rows[i as int]));
            return false;
        }
        i = i + 1;
    }
    true
}

fn decode_row(m: &NatType, modulus: i128, row: &Value) -> (out: Value)
    requires
        modulus > 0,
        m.modulus_int() == Some(modulus as int),
        decodable_row(true, row@),
    ensures
        out@ == decoded_row(true, m.modulus_int(), row@),
{
    let items = row.items();
    let n = items.len();
    let mut ys: Vec<u128> = Vec::new();
    let mut j: usize = 0;
    while j < n
        invariant
            n == items@.len(),
            j <= n,
            views(items@) == row@.items(),
            modulus > 0,
            m.modulus_int() == Some(modulus as int),
            decodable_row(true, row@),
            ys@.len() == j,
            forall|k: int|
                0 <= k < j ==> ValueView::U128(#[trigger] ys@[k]) == decoded_item(
                    true,
                    m.modulus_int(),
                    row@.items()[k],
                ),
        decreases n - j,
    {
        assert(decodable_item(row@.items()[j as int]));
        assert(items@[j as int]@ == row@.items()[j as int]);
        let x = big_to_i128(&m.to_bigint(&items[j])).unwrap();
        ys.push(to_bits(decode(modulus, x)));
        j = j + 1;
    }
    let ghost bits = ys@;
    let out = ys.write();
    assert(out@->List_0 =~= decoded_row(true, m.modulus_int(), row@)->List_0) by {
        assert forall|k: int| 0 <= k < n implies out@->List_0[k] == decoded_item(
            true,
            m.modulus_int(),
            row@.items()[k],
        ) by {
            assert(out@->List_0[k] == ValueView::U128(bits[k]));
        }
    }
    out
}

fn zero_row(m: &NatType, row: &Value) -> (out: Value)
    requires
        row@ is List,
    ensures
        out@ == decoded_row(false, m.modulus_int(), row@),
{
    let nc = row.len();
    let mut ys: Vec<u128> = Vec::with_capacity(nc);
    ys.resize(nc, 0u128);
    let ghost zeros = ys@;
    assert forall|k: int| 0 <= k < nc implies zeros[k] == 0 by {
        assert(cloned::<u128>(0u128, zeros[k]));
    }
    let out = ys.write();
    assert(out@->List_0 =~= decoded_row(false, m.modulus_int(), row@)->List_0) by {
        assert forall|k: int| 0 <= k < nc implies out@->List_0[k] == ValueView::U128(0) by {
            assert(out@->List_0[k] == ValueView::U128(zeros[k]));
        }
    }
    out
}

/// Decodes a matrix of field elements, a list of rows that are lists, into
/// the matrix of their centered signed values, each as the `u128` with its
/// bits. Where the data of domain `d` is not visible to the running party,
/// no element is read, and the result is the matrix of zeros of the same
/// shape.
pub fn uint_n_pre_matrix_to_i128(
    ctx: &ContextRef,
    stack: &mut Stack,
    m: &NatType,
    d: DomainType,
    xss: &Vec<Value>,
) -> (yss: Vec<Value>)
    requires
        decodable(d.visible_in(ctx.current_domain), m.modulus_int(), views(xss@)),
    ensures
        views(yss@) == decoded_matrix(
            d.visible_in(ctx.current_domain),
            m.modulus_int(),
            views(xss@),
        ),
        yss@.len() == xss@.len(),
        forall|i: int|
            0 <= i < xss@.len() ==> (#[trigger] yss@[i])@ is List && yss@[i]@.items().len()
                == xss@[i]@.items().len(),
        !d.visible_in(ctx.current_domain) ==> forall|i: int, j: int|
            0 <= i < xss@.len() && 0 <= j < xss@[i]@.items().len() ==> #[trigger] yss@[i]@.items()[j]
                == ValueView::U128(0),
        *final(stack) == *old(stack),
{
    let n = xss.len();
    let mut yss: Vec<Value> = Vec::new();
    let ghost rows = views(xss@);
    if d.visible_in(ctx.current_domain) {
        let m_i128: i128 = big_to_i128(m.modulus().unwrap()).unwrap();
        let mut i: usize = 0;
        while i < n
            invariant
                n == xss@.len(),
                i <= n,
                rows == views(xss@),
                m_i128 > 0,
                m.modulus_int() == Some(m_i128 as int),
                decodable(true, m.modulus_int(), rows),
                views(yss@) == decoded_matrix(true, m.modulus_int(), rows).take(i as int),
            decreases n - i,
        {
            assert(decodable_row(true, rows[i as int]));
            let ys = decode_row(m, m_i128, &xss[i]);
            proof {
                lemma_views_push(yss@, ys);
                assert(decoded_matrix(true, m.modulus_int(), rows).take(i as int).push(ys@)
                    =~= decoded_matrix(true, m.modulus_int(), rows).take(i + 1));
            }
            yss.push(ys);
            i = i + 1;
        }
        assert(decoded_matrix(true, m.modulus_int(), rows).take(n as int) =~= decoded_matrix(
            true,
            m.modulus_int(),
            rows,
        ));
    } else {
        let mut i: usize = 0;
        while i < n
            invariant
                n == xss@.len(),
                i <= n,
                rows == views(xss@),
                decodable(false, m.modulus_int(), rows),
                views(yss@) == decoded_matrix(false, m.modulus_int(), rows).take(i as int),
            decreases n - i,
        {
            assert(decodable_row(false, rows[i as int]));
            let ys = zero_row(m, &xss[i]);
            proof {
                lemma_views_push(yss@, ys);
                assert(decoded_matrix(false, m.modulus_int(), rows).take(i as int).push(ys@)
                    =~= decoded_matrix(false, m.modulus_int(), rows).take(i + 1));
            }
            yss.push(ys);
            i = i + 1;
        }
        assert(decoded_matrix(false, m.modulus_int(), rows).take(n as int) =~= decoded_matrix(
            false,
            m.modulus_int(),
            rows,
        ));
    }
    proof {
        let visible = d.visible_in(ctx.current_domain);
        lemma_decoded_shape(visible, m.modulus_int(), rows);
        lemma_hidden_decodes_to_zeros(m.modulus_int(), rows);
        assert forall|i: int| 0 <= i < xss@.len() implies (#[trigger] yss@[i])@ == views(yss@)[i]
            && xss@[i]@ == rows[i] by {}
    }
    yss
}

/// Encodes a matrix of signed integers, a list of rows that are lists of
/// the `u128`s with their bits, into the matrix of the values of the numeric
/// type `m` that stand for them. Where the data of domain `d` is not visible
/// to the running party, no element is read, and the result is the matrix of
/// placeholders of the same shape.
pub fn i128_pre_matrix_to_uint_n(
    ctx: &ContextRef,
    stack: &mut Stack,
    m: &NatType,
    d: DomainType,
    xss: &Vec<Value>,
) -> (yss: Vec<Value>)
    requires
        encodable(d.visible_in(ctx.current_domain), views(xss@)),
    ensures
        views(yss@) == encoded_matrix(
            d.visible_in(ctx.current_domain),
            m.modulus_int(),
            views(xss@),
        ),
        yss@.len() == xss@.len(),
        forall|i: int|
            0 <= i < xss@.len() ==> (#[trigger] yss@[i])@ is List && yss@[i]@.items().len()
                == xss@[i]@.items().len(),
        !d.visible_in(ctx.current_domain) ==> forall|i: int, j: int|
            0 <= i < xss@.len() && 0 <= j < xss@[i]@.items().len() ==> #[trigger] yss@[i]@.items()[j]
                == ValueView::Unknown,
        *final(stack) == *old(stack),
{
    let n = xss.len();
    let mut yss: Vec<Value> = Vec::new();
    let ghost rows = views(xss@);
    if d.visible_in(ctx.current_domain) {
        let mut i: usize = 0;
        while i < n
            invariant
                n == xss@.len(),
                i <= n,
                rows == views(xss@),
                encodable(true, rows),
                views(yss@) == encoded_matrix(true, m.modulus_int(), rows).take(i as int),
            decreases n - i,
        {
            assert(encodable_row(true, rows[i as int]));
            let ys = encode_row(m, &xss[i]);
            proof {
                lemma_views_push(yss@, ys);
                assert(encoded_matrix(true, m.modulus_int(), rows).take(i as int).push(ys@)
                    =~= encoded_matrix(true, m.modulus_int(), rows).take(i + 1));
            }
            yss.push(ys);
            i = i + 1;
        }
        assert(encoded_matrix(true, m.modulus_int(), rows).take(n as int) =~= encoded_matrix(
            true,
            m.modulus_int(),
            rows,
        ));
    } else {
        let mut i: usize = 0;
        while i < n
            invariant
                n == xss@.len(),
                i <= n,
                rows == views(xss@),
                encodable(false, rows),
                views(yss@) == encoded_matrix(false, m.modulus_int(), rows).take(i as int),
            decreases n - i,
        {
            assert(encodable_row(false, rows[i as int]));
            let ys = unknown_row(ctx, m, &xss[i]);
            proof {
                lemma_views_push(yss@, ys);
                assert(encoded_matrix(false, m.modulus_int(), rows).take(i as int).push(ys@)
                    =~= encoded_matrix(false, m.modulus_int(), rows).take(i + 1));
            }
            yss.push(ys);
            i = i + 1;
        }
        assert(encoded_matrix(false, m.modulus_int(), rows).take(n as int) =~= encoded_matrix(
            false,
            m.modulus_int(),
            rows,
        ));
    }
    proof {
        let visible = d.visible_in(ctx.current_domain);
        lemma_encoded_shape(visible, m.modulus_int(), rows);
        lemma_hidden_encodes_to_unknowns(m.modulus_int(), rows);
        assert forall|i: int| 0 <= i < xss@.len() implies (#[trigger] yss@[i])@ == views(yss@)[i]
            && xss@[i]@ == rows[i] by {}
    }
    yss
}

} // verus!
