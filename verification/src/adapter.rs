//! The calling convention of native functions: which native parameters the
//! type parameters of a call bind, and how the codec's two functions are
//! called from the untyped data of a call site.

use crate::codec::decodable;
use crate::codec::decoded_matrix;
use crate::codec::encodable;
use crate::codec::encoded_matrix;
use crate::codec::i128_pre_matrix_to_uint_n;
use crate::codec::uint_n_pre_matrix_to_i128;
use crate::context::ContextRef;
use crate::context::DomainType;
use crate::context::QualifiedType;
use crate::context::Stack;
use crate::context::StageType;
use crate::modulus::NatType;
use crate::value::Value;
use crate::value::ValueView;
use vstd::prelude::*;

verus! {

/// A type parameter of a call, with what the interpreter supplies for it.
#[derive(Debug)]
pub enum TypeParam {
    Domain(DomainType),
    Stage(StageType),
    Nat(NatType),
    Qualified(QualifiedType),
    Unqualified,
}

/// A native parameter that a type parameter binds.
#[derive(Debug)]
pub enum NativeParam<'a> {
    Domain(DomainType),
    Stage(StageType),
    Nat(&'a NatType),
    Qualified(QualifiedType),
}

/// The native parameter that one type parameter binds: its own descriptor
/// for each kind but the unqualified one, which binds none.
pub open spec fn binding<'a>(p: &'a TypeParam) -> Option<NativeParam<'a>> {
    match p {
        TypeParam::Domain(d) => Some(NativeParam::Domain(*d)),
        TypeParam::Stage(s) => Some(NativeParam::Stage(*s)),
        TypeParam::Nat(m) => Some(NativeParam::Nat(m)),
        TypeParam::Qualified(q) => Some(NativeParam::Qualified(*q)),
        TypeParam::Unqualified => None,
    }
}

/// The native parameters that the type parameters of a call bind, in the
/// order of their declaration.
pub open spec fn bindings<'a>(params: Seq<TypeParam>) -> Seq<NativeParam<'a>>
    decreases params.len(),
{
    if params.len() == 0 {
        Seq::empty()
    } else {
        let before = bindings(params.drop_last());
        match binding(&params.last()) {
            Some(b) => before.push(b),
            None => before,
        }
    }
}

/// The native parameters that the type parameters of a call bind.
pub fn bind_type_params<'a>(params: &'a Vec<TypeParam>) -> (bound: Vec<NativeParam<'a>>)
    ensures
        bound@ == bindings(params@),
{
    let mut bound: Vec<NativeParam<'a>> = Vec::new();
    let n = params.len();
    let mut i: usize = 0;
    while i < n
        invariant
            n == params@.len(),
            i <= n,
            bound@ == bindings(params@.take(i as int)),
        decreases n - i,
    {
        assert(params@.take(i + 1).drop_last() =~= params@.take(i as int));
        match &params[i] {
            TypeParam::Domain(d) => bound.push(NativeParam::Domain(*d)),
            TypeParam::Stage(s) => bound.push(NativeParam::Stage(*s)),
            TypeParam::Nat(m) => bound.push(NativeParam::Nat(m)),
            TypeParam::Qualified(q) => bound.push(NativeParam::Qualified(*q)),
            TypeParam::Unqualified => {},
        }
        i = i + 1;
    }
    assert(params@.take(n as int) =~= params@);
    bound
}

/// Binding goes parameter by parameter: what a list of type parameters
/// binds is what its front binds, followed by what its back binds.
pub proof fn lemma_bindings_concat(front: Seq<TypeParam>, back: Seq<TypeParam>)
    ensures
        bindings(front + back) == bindings(front) + bindings(back),
    decreases back.len(),
{
    if back.len() == 0 {
        assert(front + back =~= front);
        assert(bindings(front) + bindings(back) =~= bindings(front));
    } else {
        lemma_bindings_concat(front, back.drop_last());
        assert((front + back).drop_last() =~= front + back.drop_last());
        assert((front + back).last() == back.last());
        match binding(&back.last()) {
            Some(b) => {
                assert(bindings(front) + bindings(back.drop_last()).push(b) =~= (bindings(front)
                    + bindings(back.drop_last())).push(b));
            },
            None => {},
        }
    }
}

/// No native parameter stands for an unqualified type parameter, and one
/// stands for every other: there are as many native parameters as type
/// parameters that are not unqualified.
pub proof fn lemma_bindings_len(params: Seq<TypeParam>)
    ensures
        bindings(params).len() == params.filter(|p: TypeParam| !(p is Unqualified)).len(),
    decreases params.len(),
{
    reveal(Seq::filter);
    if params.len() > 0 {
        lemma_bindings_len(params.drop_last());
    }
}

/// Whether the type parameters of a call are those of the codec's matrix
/// functions: they bind a modulus descriptor, then a domain.
pub open spec fn binds_modulus_and_domain(params: Seq<TypeParam>) -> bool {
    &&& bindings(params).len() == 2
    &&& bindings(params)[0] is Nat
    &&& bindings(params)[1] is Domain
}

/// The modulus descriptor and the domain that the type parameters of a
/// call bind, where they bind exactly these two in this order.
pub fn modulus_and_domain<'a>(params: &'a Vec<TypeParam>) -> (bound: Option<
    (&'a NatType, DomainType),
>)
    ensures
        bound is Some <==> binds_modulus_and_domain(params@),
        bound matches Some((m, d)) ==> bindings(params@) == seq![
            NativeParam::Nat(m),
            NativeParam::Domain(d),
        ],
{
    let natives = bind_type_params(params);
    if natives.len() != 2 {
        return None;
    }
    match (&natives[0], &natives[1]) {
        (NativeParam::Nat(m), NativeParam::Domain(d)) => {
            assert(natives@ =~= seq![NativeParam::Nat(*m), NativeParam::Domain(*d)]);
            Some((*m, *d))
        },
        _ => None,
    }
}

/// Whether a call site fits the codec's matrix functions: its type
/// parameters bind a modulus descriptor and a domain, and its one argument
/// is a list.
pub open spec fn matrix_call(params: Seq<TypeParam>, args: Seq<Value>) -> bool {
    &&& binds_modulus_and_domain(params)
    &&& args.len() == 1
    &&& args[0]@ is List
}

/// Calls the decoding of a matrix from the data of a call site: the type
/// parameters supply the modulus descriptor and the domain, the one
/// argument is the matrix, and the decoded matrix comes back as one value.
pub fn call_uint_n_pre_matrix_to_i128(
    ctx: &ContextRef,
    stack: &mut Stack,
    params: &Vec<TypeParam>,
    args: &Vec<Value>,
) -> (result: Value)
    requires
        matrix_call(params@, args@),
        decodable(
            bindings(params@)[1]->Domain_0.visible_in(ctx.current_domain),
            bindings(params@)[0]->Nat_0.modulus_int(),
            args@[0]@.items(),
        ),
    ensures
        result@ == ValueView::List(
            decoded_matrix(
                bindings(params@)[1]->Domain_0.visible_in(ctx.current_domain),
                bindings(params@)[0]->Nat_0.modulus_int(),
                args@[0]@.items(),
            ),
        ),
        *final(stack) == *old(stack),
{
    let (m, d) = modulus_and_domain(params).unwrap();
    let xss = args[0].items();
    let yss = uint_n_pre_matrix_to_i128(ctx, stack, m, d, xss);
    Value::list(yss)
}

/// Calls the encoding of a matrix from the data of a call site: the type
/// parameters supply the modulus descriptor and the domain, the one
/// argument is the matrix, and the encoded matrix comes back as one value.
pub fn call_i128_pre_matrix_to_uint_n(
    ctx: &ContextRef,
    stack: &mut Stack,
    params: &Vec<TypeParam>,
    args: &Vec<Value>,
) -> (result: Value)
    requires
        matrix_call(params@, args@),
        encodable(
            bindings(params@)[1]->Domain_0.visible_in(ctx.current_domain),
            args@[0]@.items(),
        ),
    ensures
        result@ == ValueView::List(
            encoded_matrix(
                bindings(params@)[1]->Domain_0.visible_in(ctx.current_domain),
                bindings(params@)[0]->Nat_0.modulus_int(),
                args@[0]@.items(),
            ),
        ),
        *final(stack) == *old(stack),
{
    let (m, d) = modulus_and_domain(params).unwrap();
    let xss = args[0].items();
    let yss = i128_pre_matrix_to_uint_n(ctx, stack, m, d, xss);
    Value::list(yss)
}

} // verus!
