//! From bytes to values.

use crate::codec::schema::classify;
use crate::codec::schema::element_type;
use crate::codec::schema::find_bare;
use crate::codec::schema::find_boxed;
use crate::codec::schema::find_condition;
use crate::codec::schema::Shape;
use crate::codec::value::de;
use crate::codec::value::de_fields;
use crate::codec::value::de_items;
use crate::codec::value::de_vector;
use crate::codec::value::fields_view;
use crate::codec::value::is_present;
use crate::codec::value::items_view;
use crate::codec::value::lemma_object_view;
use crate::codec::value::lemma_vector_view;
use crate::codec::value::response_type;
use crate::codec::value::Decoded;
use crate::codec::value::Value;
use crate::codec::value::ValueView;
use crate::codec::wire::read_bytes;
use crate::codec::wire::read_i32;
use crate::codec::wire::read_i64;
use crate::codec::wire::read_u32;
use crate::codec::wire::read_u64;
use crate::codec::wire::DecodeError;
use crate::codec::wire::BOOL_FALSE_ID;
use crate::codec::wire::BOOL_TRUE_ID;
use crate::codec::wire::VECTOR_ID;
use crate::tl::definition::all_views;
use crate::tl::definition::parameter_views;
use crate::tl::definition::Definition;
use crate::tl::definition::DefinitionView;
use crate::tl::parameter::Parameter;
use crate::tl::parameter::ParameterType;
use crate::tl::parameter::ParameterView;
use crate::tl::ty::Type;
use crate::tl::ty::TypeView;
use vstd::prelude::*;
use vstd::slice::slice_subrange;
use vstd::slice::slice_to_vec;

verus! {

/// What reading a value gave, as a mathematical value.
pub open spec fn value_outcome(r: Result<(Value, usize), DecodeError>) -> Result<
    (ValueView, int),
    DecodeError,
> {
    match r {
        Ok((value, next)) => Ok((value@, next as int)),
        Err(e) => Err(e),
    }
}

/// Once an element cannot be read, neither can the vector.
pub proof fn lemma_items_failure_stays(
    defs: Seq<DefinitionView>,
    element: TypeView,
    s: Seq<u8>,
    pos: int,
    fuel: nat,
    i: nat,
    count: nat,
)
    requires
        i <= count,
        de_items(defs, element, s, pos, fuel, i) is Err,
    ensures
        de_items(defs, element, s, pos, fuel, count) == de_items(defs, element, s, pos, fuel, i),
    decreases count,
{
    if i < count {
        lemma_items_failure_stays(defs, element, s, pos, fuel, i, (count - 1) as nat);
    }
}

/// Once a field cannot be read, neither can the fields after it.
pub proof fn lemma_fields_failure_stays(
    defs: Seq<DefinitionView>,
    params: Seq<ParameterView>,
    s: Seq<u8>,
    pos: int,
    fuel: nat,
    i: nat,
    k: nat,
)
    requires
        i <= k,
        de_fields(defs, params, s, pos, fuel, i) is Err,
    ensures
        de_fields(defs, params, s, pos, fuel, k) == de_fields(defs, params, s, pos, fuel, i),
    decreases k,
{
    if i < k {
        lemma_fields_failure_stays(defs, params, s, pos, fuel, i, (k - 1) as nat);
    }
}

/// Reads `n` bytes as they are.
fn read_raw(data: &[u8], pos: usize, n: usize) -> (r: Option<Vec<u8>>)
    ensures
        r is Some ==> pos + n <= usize::MAX,
        match r {
            Some(bytes) => pos + n <= data@.len() && bytes@ == data@.subrange(
                pos as int,
                pos + n,
            ),
            None => pos + n > data@.len(),
        },
{
    if n > data.len() || pos > data.len() - n {
        return None;
    }
    Some(slice_to_vec(slice_subrange(data, pos, pos + n)))
}

/// Reads the value of the type `ty` that stands at `pos`, and says where it
/// ends. Nested values are followed `depth` levels deep.
pub fn read_value(
    definitions: &Vec<Definition>,
    ty: &Type,
    data: &[u8],
    pos: usize,
    depth: usize,
) -> (r: Result<(Value, usize), DecodeError>)
    ensures
        value_outcome(r) == de(all_views(definitions@), ty@, data@, pos as int, depth as nat),
    decreases depth, 0nat,
{
    let ghost defs = all_views(definitions@);
    match classify(ty) {
        Shape::Int => match read_i32(data, pos) {
            Some(v) => Ok((Value::Int(v), pos + 4)),
            None => Err(DecodeError::UnexpectedEof),
        },
        Shape::Long => match read_i64(data, pos) {
            Some(v) => Ok((Value::Long(v), pos + 8)),
            None => Err(DecodeError::UnexpectedEof),
        },
        Shape::Double => match read_u64(data, pos) {
            Some(v) => Ok((Value::Double(v), pos + 8)),
            None => Err(DecodeError::UnexpectedEof),
        },
        Shape::Int128 => match read_raw(data, pos, 16) {
            Some(bytes) => Ok((Value::Raw(bytes), pos + 16)),
            None => Err(DecodeError::UnexpectedEof),
        },
        Shape::Int256 => match read_raw(data, pos, 32) {
            Some(bytes) => Ok((Value::Raw(bytes), pos + 32)),
            None => Err(DecodeError::UnexpectedEof),
        },
        Shape::Bytes => match read_bytes(data, pos) {
            Some((bytes, next)) => Ok((Value::Bytes(bytes), next)),
            None => Err(DecodeError::UnexpectedEof),
        },
        Shape::Bool => match read_u32(data, pos) {
            Some(id) => {
                if id == BOOL_TRUE_ID {
                    Ok((Value::Bool(true), pos + 4))
                } else if id == BOOL_FALSE_ID {
                    Ok((Value::Bool(false), pos + 4))
                } else {
                    Err(DecodeError::UnexpectedConstructor { id })
                }
            },
            None => Err(DecodeError::UnexpectedEof),
        },
        Shape::True => Ok((Value::True, pos)),
        Shape::BoxedVector => {
            if depth == 0 {
                return Err(DecodeError::TooDeep);
            }
            match read_u32(data, pos) {
                Some(id) => {
                    if id != VECTOR_ID {
                        return Err(DecodeError::UnexpectedConstructor { id });
                    }
                    match element_type(ty) {
                        Some(element) => read_vector(
                            definitions,
                            &element,
                            data,
                            pos + 4,
                            depth - 1,
                        ),
                        None => Err(DecodeError::UnknownType),
                    }
                },
                None => Err(DecodeError::UnexpectedEof),
            }
        },
        Shape::BareVector => {
            if depth == 0 {
                return Err(DecodeError::TooDeep);
            }
            match element_type(ty) {
                Some(element) => read_vector(definitions, &element, data, pos, depth - 1),
                None => Err(DecodeError::UnknownType),
            }
        },
        Shape::Boxed => {
            if depth == 0 {
                return Err(DecodeError::TooDeep);
            }
            match read_u32(data, pos) {
                Some(id) => match find_boxed(definitions, ty, id) {
                    Some(c) => {
                        assert(defs[c as int] == definitions@[c as int]@);
                        match read_fields(
                            definitions,
                            &definitions[c].params,
                            data,
                            pos + 4,
                            depth - 1,
                        ) {
                            Ok((fields, next)) => {
                                proof {
                                    lemma_object_view(id, fields);
                                }
                                Ok((Value::Object { id, fields }, next))
                            },
                            Err(e) => Err(e),
                        }
                    },
                    None => Err(DecodeError::UnexpectedConstructor { id }),
                },
                None => Err(DecodeError::UnexpectedEof),
            }
        },
        Shape::Bare => {
            if depth == 0 {
                return Err(DecodeError::TooDeep);
            }
            match find_bare(definitions, ty) {
                Some(c) => {
                    assert(defs[c as int] == definitions@[c as int]@);
                    match read_fields(definitions, &definitions[c].params, data, pos, depth - 1) {
                        Ok((fields, next)) => {
                            proof {
                                lemma_object_view(definitions[c as int].id, fields);
                            }
                            Ok((Value::Object { id: definitions[c].id, fields }, next))
                        },
                        Err(e) => Err(e),
                    }
                },
                None => Err(DecodeError::UnknownType),
            }
        },
        Shape::Unknown => Err(DecodeError::UnknownType),
    }
}

/// Reads a vector of `element` from its count on.
#[verifier::loop_isolation(false)]
fn read_vector(
    definitions: &Vec<Definition>,
    element: &Type,
    data: &[u8],
    pos: usize,
    depth: usize,
) -> (r: Result<(Value, usize), DecodeError>)
    ensures
        value_outcome(r) == de_vector(
            all_views(definitions@),
            element@,
            data@,
            pos as int,
            depth as nat,
        ),
    decreases depth, 1nat,
{
    let ghost defs = all_views(definitions@);
    let count = match read_i32(data, pos) {
        Some(count) => count,
        None => {
            return Err(DecodeError::UnexpectedEof);
        },
    };
    if count < 0 {
        return Err(DecodeError::NegativeCount);
    }
    let start = pos + 4;
    let mut items: Vec<Value> = Vec::new();
    let mut at: usize = start;
    let mut i: i32 = 0;
    assert(items_view(items@) =~= Seq::<ValueView>::empty());
    while i < count
        invariant
            0 <= i <= count,
            de_items(defs, element@, data@, start as int, depth as nat, i as nat) == Ok::<
                (Seq<ValueView>, int),
                DecodeError,
            >((items_view(items@), at as int)),
        decreases count - i,
    {
        let ghost before = items_view(items@);
        match read_value(definitions, element, data, at, depth) {
            Ok((value, next)) => {
                items.push(value);
                assert(items_view(items@) =~= before.push(value@));
                at = next;
            },
            Err(e) => {
                proof {
                    lemma_items_failure_stays(
                        defs,
                        element@,
                        data@,
                        start as int,
                        depth as nat,
                        (i + 1) as nat,
                        count as nat,
                    );
                }
                return Err(e);
            },
        }
        i = i + 1;
    }
    proof {
        lemma_vector_view(items);
    }
    Ok((Value::Vector(items), at))
}

/// Reads the fields of a constructor with the parameters `params`.
#[verifier::loop_isolation(false)]
fn read_fields(
    definitions: &Vec<Definition>,
    params: &Vec<Parameter>,
    data: &[u8],
    pos: usize,
    depth: usize,
) -> (r: Result<(Vec<Option<Value>>, usize), DecodeError>)
    ensures
        match r {
            Ok((fields, next)) => de_fields(
                all_views(definitions@),
                parameter_views(params@),
                data@,
                pos as int,
                depth as nat,
                params@.len(),
            ) matches Ok(decoded) && decoded.fields == fields_view(fields@) && decoded.pos == next,
            Err(e) => de_fields(
                all_views(definitions@),
                parameter_views(params@),
                data@,
                pos as int,
                depth as nat,
                params@.len(),
            ) == Err::<Decoded, DecodeError>(e),
        },
    decreases depth, 1nat,
{
    let ghost defs = all_views(definitions@);
    let ghost pv = parameter_views(params@);
    let mut fields: Vec<Option<Value>> = Vec::new();
    let mut masks: Vec<u32> = Vec::new();
    let mut at: usize = pos;
    let mut k: usize = 0;
    assert(fields_view(fields@) =~= Seq::<Option<ValueView>>::empty());
    while k < params.len()
        invariant
            k <= params@.len(),
            masks@.len() == k,
            de_fields(defs, pv, data@, pos as int, depth as nat, k as nat) == Ok::<
                Decoded,
                DecodeError,
            >(Decoded { fields: fields_view(fields@), masks: masks@, pos: at as int }),
        decreases params@.len() - k,
    {
        assert(pv[k as int] == params@[k as int]@);
        let ghost before = fields_view(fields@);
        match &params[k].ty {
            ParameterType::Flags => match read_u32(data, at) {
                Some(mask) => {
                    fields.push(None);
                    masks.push(mask);
                    assert(fields_view(fields@) =~= before.push(None));
                    at = at + 4;
                },
                None => {
                    proof {
                        lemma_fields_failure_stays(
                            defs,
                            pv,
                            data@,
                            pos as int,
                            depth as nat,
                            (k + 1) as nat,
                            params@.len(),
                        );
                    }
                    return Err(DecodeError::UnexpectedEof);
                },
            },
            ParameterType::Normal { ty, flag } => {
                let present = if flag.is_some() {
                    match find_condition(params, k) {
                        Some((j, bit)) => (masks[j] >> bit) & 1 == 1,
                        None => false,
                    }
                } else {
                    true
                };
                assert(present == is_present(pv, masks@, k as int));
                if present {
                    match read_value(definitions, ty, data, at, depth) {
                        Ok((value, next)) => {
                            fields.push(Some(value));
                            masks.push(0);
                            assert(fields_view(fields@) =~= before.push(Some(value@)));
                            at = next;
                        },
                        Err(e) => {
                            proof {
                                lemma_fields_failure_stays(
                                    defs,
                                    pv,
                                    data@,
                                    pos as int,
                                    depth as nat,
                                    (k + 1) as nat,
                                    params@.len(),
                                );
                            }
                            return Err(e);
                        },
                    }
                } else {
                    fields.push(None);
                    masks.push(0);
                    assert(fields_view(fields@) =~= before.push(None));
                }
            },
        }
        k = k + 1;
    }
    Ok((fields, at))
}

/// Reads a value of the type `ty` from the start of `data`, and says where
/// it ends. Nested values are followed `depth` levels deep.
pub fn deserialize(definitions: &Vec<Definition>, ty: &Type, data: &[u8], depth: usize) -> (r:
    Result<(Value, usize), DecodeError>)
    ensures
        value_outcome(r) == de(all_views(definitions@), ty@, data@, 0, depth as nat),
{
    read_value(definitions, ty, data, 0, depth)
}

/// Reads the response to a call of the function at index `function` of the
/// schema: a value of the type that the function declares.
pub fn deserialize_response(
    definitions: &Vec<Definition>,
    function: usize,
    data: &[u8],
    depth: usize,
) -> (r: Result<(Value, usize), DecodeError>)
    ensures
        value_outcome(r) == if function < definitions@.len() {
            de(
                all_views(definitions@),
                response_type(all_views(definitions@), function as int),
                data@,
                0,
                depth as nat,
            )
        } else {
            Err(DecodeError::UnknownType)
        },
{
    if function >= definitions.len() {
        return Err(DecodeError::UnknownType);
    }
    assert(all_views(definitions@)[function as int] == definitions@[function as int]@);
    read_value(definitions, &definitions[function].ty, data, 0, depth)
}

} // verus!
