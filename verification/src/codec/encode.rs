//! From values to bytes.

use crate::codec::schema::classify;
use crate::codec::schema::condition_of;
use crate::codec::schema::element_type;
use crate::codec::schema::find_bare;
use crate::codec::schema::find_boxed;
use crate::codec::schema::find_condition;
use crate::codec::schema::Shape;
use crate::codec::value::call_conforms;
use crate::codec::value::conforms;
use crate::codec::value::ser_call;
use crate::codec::value::field_conforms;
use crate::codec::value::field_view;
use crate::codec::value::fields_conform;
use crate::codec::value::fields_view;
use crate::codec::value::items_conform;
use crate::codec::value::items_view;
use crate::codec::value::lemma_object_view;
use crate::codec::value::lemma_vector_view;
use crate::codec::value::mask_of;
use crate::codec::value::ser;
use crate::codec::value::ser_fields;
use crate::codec::value::ser_items;
use crate::codec::value::Value;
use crate::codec::wire::write_bytes;
use crate::codec::wire::write_i32;
use crate::codec::wire::write_i64;
use crate::codec::wire::write_raw;
use crate::codec::wire::write_u32;
use crate::codec::wire::write_u64;
use crate::codec::wire::BOOL_FALSE_ID;
use crate::codec::wire::BOOL_TRUE_ID;
use crate::codec::wire::LENGTH_LIMIT;
use crate::codec::wire::VECTOR_ID;
use crate::tl::definition::all_views;
use crate::tl::category::Category;
use crate::tl::definition::parameter_views;
use crate::tl::definition::Definition;
use crate::tl::parameter::Parameter;
use crate::tl::parameter::ParameterType;
use crate::tl::ty::Type;
use vstd::prelude::*;

verus! {

/// Tests whether the conditional parameter `k` names a bit of a flags
/// parameter before it, and is present exactly if the others of that bit
/// are.
#[verifier::loop_isolation(false)]
fn is_consistent(params: &Vec<Parameter>, fields: &Vec<Option<Value>>, k: usize) -> (ok: bool)
    requires
        k < params@.len(),
        params@.len() == fields@.len(),
    ensures
        ok == (condition_of(parameter_views(params@), k as int) is Some && forall|j: int|
            0 <= j < fields@.len() && condition_of(parameter_views(params@), j) == condition_of(
                parameter_views(params@),
                k as int,
            ) ==> (#[trigger] fields_view(fields@)[j] is Some <==> fields_view(
                fields@,
            )[k as int] is Some)),
{
    let ghost pv = parameter_views(params@);
    let ghost fv = fields_view(fields@);
    let (flags, bit) = match find_condition(params, k) {
        Some(condition) => condition,
        None => {
            return false;
        },
    };
    let present = fields[k].is_some();
    let mut j: usize = 0;
    while j < params.len()
        invariant
            j <= params@.len(),
            forall|i: int|
                0 <= i < j && condition_of(pv, i) == condition_of(pv, k as int) ==> (
                #[trigger] fv[i] is Some <==> present),
        decreases params@.len() - j,
    {
        match find_condition(params, j) {
            Some((other_flags, other_bit)) => {
                if other_flags == flags && other_bit == bit && fields[j].is_some() != present {
                    assert(!(fv[j as int] is Some <==> fv[k as int] is Some));
                    return false;
                }
            },
            None => {},
        }
        j = j + 1;
    }
    true
}

/// Tests whether `value` is a value of the type `ty` in the schema.
pub fn check(definitions: &Vec<Definition>, ty: &Type, value: &Value) -> (ok: bool)
    ensures
        ok == conforms(all_views(definitions@), ty@, value@),
    decreases value, 0nat,
{
    let ghost defs = all_views(definitions@);
    let shape = classify(ty);
    match value {
        Value::Int(_) => shape == Shape::Int,
        Value::Long(_) => shape == Shape::Long,
        Value::Double(_) => shape == Shape::Double,
        Value::Raw(bytes) => (shape == Shape::Int128 && bytes.len() == 16) || (shape
            == Shape::Int256 && bytes.len() == 32),
        Value::Bytes(bytes) => shape == Shape::Bytes && bytes.len() < LENGTH_LIMIT,
        Value::Bool(_) => shape == Shape::Bool,
        Value::True => shape == Shape::True,
        Value::Vector(items) => {
            proof {
                lemma_vector_view(*items);
            }
            if shape != Shape::BoxedVector && shape != Shape::BareVector {
                return false;
            }
            let element = match element_type(ty) {
                Some(element) => element,
                None => {
                    return false;
                },
            };
            check_items(definitions, &element, items)
        },
        Value::Object { id, fields } => {
            proof {
                lemma_object_view(*id, *fields);
            }
            if shape == Shape::Boxed {
                match find_boxed(definitions, ty, *id) {
                    Some(c) => {
                        assert(defs[c as int] == definitions@[c as int]@);
                        check_fields(definitions, &definitions[c].params, fields)
                    },
                    None => false,
                }
            } else if shape == Shape::Bare {
                match find_bare(definitions, ty) {
                    Some(c) => {
                        assert(defs[c as int] == definitions@[c as int]@);
                        definitions[c].id == *id && check_fields(
                            definitions,
                            &definitions[c].params,
                            fields,
                        )
                    },
                    None => false,
                }
            } else {
                false
            }
        },
    }
}

/// Tests whether `items` are the elements of a vector of `element`.
#[verifier::loop_isolation(false)]
fn check_items(definitions: &Vec<Definition>, element: &Type, items: &Vec<Value>) -> (ok: bool)
    ensures
        ok == items_conform(all_views(definitions@), element@, items_view(items@)),
    decreases items, 1nat,
{
    if items.len() > 0x7FFF_FFFF {
        return false;
    }
    let mut i: usize = 0;
    while i < items.len()
        invariant
            i <= items@.len(),
            forall|j: int|
                0 <= j < i ==> conforms(
                    all_views(definitions@),
                    element@,
                    #[trigger] items_view(items@)[j],
                ),
        decreases items@.len() - i,
    {
        if !check(definitions, element, &items[i]) {
            assert(!conforms(all_views(definitions@), element@, items_view(items@)[i as int]));
            return false;
        }
        i = i + 1;
    }
    true
}

/// Tests whether `fields` are the fields of a constructor with the
/// parameters `params`.
#[verifier::loop_isolation(false)]
fn check_fields(definitions: &Vec<Definition>, params: &Vec<Parameter>, fields: &Vec<
    Option<Value>,
>) -> (ok: bool)
    ensures
        ok == fields_conform(
            all_views(definitions@),
            parameter_views(params@),
            fields_view(fields@),
        ),
    decreases fields, 1nat,
{
    let ghost defs = all_views(definitions@);
    let ghost pv = parameter_views(params@);
    let ghost fv = fields_view(fields@);
    if fields.len() != params.len() {
        return false;
    }
    let mut k: usize = 0;
    while k < fields.len()
        invariant
            k <= fields@.len(),
            forall|j: int| 0 <= j < k ==> field_conforms(defs, pv, fv, j, #[trigger] fv[j]),
        decreases fields@.len() - k,
    {
        assert(pv[k as int] == params@[k as int]@);
        assert(fv[k as int] == field_view(fields@[k as int]));
        let ok = match &params[k].ty {
            ParameterType::Flags => fields[k].is_none(),
            ParameterType::Normal { ty, flag } => {
                let valid = match &fields[k] {
                    Some(v) => check(definitions, ty, v),
                    None => flag.is_some(),
                };
                valid && (flag.is_none() || is_consistent(params, fields, k))
            },
        };
        if !ok {
            assert(!field_conforms(defs, pv, fv, k as int, fv[k as int]));
            return false;
        }
        k = k + 1;
    }
    true
}

/// Computes the mask of the flags parameter `j`.
#[verifier::loop_isolation(false)]
fn compute_mask(params: &Vec<Parameter>, fields: &Vec<Option<Value>>, j: usize) -> (mask: u32)
    requires
        params@.len() == fields@.len(),
    ensures
        mask == mask_of(
            parameter_views(params@),
            fields_view(fields@),
            j as int,
            fields@.len() as int,
        ),
{
    let ghost pv = parameter_views(params@);
    let ghost fv = fields_view(fields@);
    let mut mask: u32 = 0;
    let mut n: usize = 0;
    while n < fields.len()
        invariant
            n <= fields@.len(),
            mask == mask_of(pv, fv, j as int, n as int),
        decreases fields@.len() - n,
    {
        assert(fv[n as int] == field_view(fields@[n as int]));
        match find_condition(params, n) {
            Some((flags, bit)) => {
                if flags == j && fields[n].is_some() {
                    mask = mask | (1u32 << bit);
                }
            },
            None => {},
        }
        n = n + 1;
    }
    mask
}

/// Appends the bytes of a value of the type `ty`.
fn write_value(definitions: &Vec<Definition>, ty: &Type, value: &Value, buf: &mut Vec<u8>)
    requires
        conforms(all_views(definitions@), ty@, value@),
    ensures
        final(buf)@ == old(buf)@ + ser(all_views(definitions@), ty@, value@),
    decreases value, 0nat,
{
    let ghost defs = all_views(definitions@);
    let shape = classify(ty);
    match value {
        Value::Int(v) => write_i32(buf, *v),
        Value::Long(v) => write_i64(buf, *v),
        Value::Double(bits) => write_u64(buf, *bits),
        Value::Raw(bytes) => write_raw(buf, bytes.as_slice()),
        Value::Bytes(bytes) => {
            let written = write_bytes(buf, bytes.as_slice());
        },
        Value::Bool(b) => write_u32(
            buf,
            if *b {
                BOOL_TRUE_ID
            } else {
                BOOL_FALSE_ID
            },
        ),
        Value::True => {
            assert(buf@ =~= old(buf)@ + Seq::<u8>::empty());
        },
        Value::Vector(items) => {
            proof {
                lemma_vector_view(*items);
            }
            if shape == Shape::BoxedVector {
                write_u32(buf, VECTOR_ID);
            }
            write_i32(buf, items.len() as i32);
            match element_type(ty) {
                Some(element) => {
                    write_items(definitions, &element, items, buf);
                },
                None => {},
            }
            assert(buf@ =~= old(buf)@ + ser(defs, ty@, value@));
        },
        Value::Object { id, fields } => {
            proof {
                lemma_object_view(*id, *fields);
            }
            if shape == Shape::Boxed {
                match find_boxed(definitions, ty, *id) {
                    Some(c) => {
                        assert(defs[c as int] == definitions@[c as int]@);
                        write_u32(buf, *id);
                        write_fields(definitions, &definitions[c].params, fields, buf);
                    },
                    None => {},
                }
            } else {
                match find_bare(definitions, ty) {
                    Some(c) => {
                        assert(defs[c as int] == definitions@[c as int]@);
                        write_fields(definitions, &definitions[c].params, fields, buf);
                    },
                    None => {},
                }
            }
            assert(buf@ =~= old(buf)@ + ser(defs, ty@, value@));
        },
    }
}

/// Appends the bytes of the elements of a vector.
#[verifier::loop_isolation(false)]
fn write_items(definitions: &Vec<Definition>, element: &Type, items: &Vec<Value>, buf: &mut Vec<
    u8,
>)
    requires
        items_conform(all_views(definitions@), element@, items_view(items@)),
    ensures
        final(buf)@ == old(buf)@ + ser_items(
            all_views(definitions@),
            element@,
            items_view(items@),
            items@.len(),
        ),
    decreases items, 1nat,
{
    let ghost defs = all_views(definitions@);
    let ghost iv = items_view(items@);
    let mut i: usize = 0;
    assert(buf@ =~= old(buf)@ + ser_items(defs, element@, iv, 0));
    while i < items.len()
        invariant
            i <= items@.len(),
            buf@ == old(buf)@ + ser_items(defs, element@, iv, i as nat),
        decreases items@.len() - i,
    {
        let ghost before = buf@;
        assert(conforms(defs, element@, iv[i as int]));
        write_value(definitions, element, &items[i], buf);
        assert(buf@ =~= old(buf)@ + ser_items(defs, element@, iv, (i + 1) as nat));
        i = i + 1;
    }
}

/// Appends the bytes of the fields of a constructor.
#[verifier::loop_isolation(false)]
fn write_fields(
    definitions: &Vec<Definition>,
    params: &Vec<Parameter>,
    fields: &Vec<Option<Value>>,
    buf: &mut Vec<u8>,
)
    requires
        fields_conform(all_views(definitions@), parameter_views(params@), fields_view(fields@)),
    ensures
        final(buf)@ == old(buf)@ + ser_fields(
            all_views(definitions@),
            parameter_views(params@),
            fields_view(fields@),
            fields@.len(),
        ),
    decreases fields, 1nat,
{
    let ghost defs = all_views(definitions@);
    let ghost pv = parameter_views(params@);
    let ghost fv = fields_view(fields@);
    let mut k: usize = 0;
    assert(buf@ =~= old(buf)@ + ser_fields(defs, pv, fv, 0));
    while k < fields.len()
        invariant
            k <= fields@.len(),
            buf@ == old(buf)@ + ser_fields(defs, pv, fv, k as nat),
        decreases fields@.len() - k,
    {
        assert(pv[k as int] == params@[k as int]@);
        assert(fv[k as int] == field_view(fields@[k as int]));
        assert(field_conforms(defs, pv, fv, k as int, fv[k as int]));
        match &params[k].ty {
            ParameterType::Flags => {
                write_u32(buf, compute_mask(params, fields, k));
            },
            ParameterType::Normal { ty, flag } => match &fields[k] {
                Some(v) => {
                    write_value(definitions, ty, v, buf);
                },
                None => {},
            },
        }
        assert(buf@ =~= old(buf)@ + ser_fields(defs, pv, fv, (k + 1) as nat));
        k = k + 1;
    }
}

/// The bytes of a value of the type `ty`; none for what is no value of that
/// type.
pub fn serialize(definitions: &Vec<Definition>, ty: &Type, value: &Value) -> (bytes: Option<
    Vec<u8>,
>)
    ensures
        match bytes {
            Some(b) => conforms(all_views(definitions@), ty@, value@) && b@ == ser(
                all_views(definitions@),
                ty@,
                value@,
            ),
            None => !conforms(all_views(definitions@), ty@, value@),
        },
{
    if !check(definitions, ty, value) {
        return None;
    }
    let mut buf: Vec<u8> = Vec::new();
    write_value(definitions, ty, value, &mut buf);
    assert(buf@ =~= ser(all_views(definitions@), ty@, value@));
    Some(buf)
}

/// The bytes of a call of the function at index `function` of the schema
/// with the arguments `fields`; none where there is no such function or
/// these are not its arguments.
pub fn serialize_call(definitions: &Vec<Definition>, function: usize, fields: &Vec<
    Option<Value>,
>) -> (bytes: Option<Vec<u8>>)
    ensures
        match bytes {
            Some(b) => call_conforms(
                all_views(definitions@),
                function as int,
                fields_view(fields@),
            ) && b@ == ser_call(all_views(definitions@), function as int, fields_view(fields@)),
            None => !call_conforms(all_views(definitions@), function as int, fields_view(fields@)),
        },
{
    if function >= definitions.len() {
        return None;
    }
    let def = &definitions[function];
    assert(all_views(definitions@)[function as int] == def@);
    if def.category != Category::Functions || !check_fields(definitions, &def.params, fields) {
        return None;
    }
    let mut buf: Vec<u8> = Vec::new();
    write_u32(&mut buf, def.id);
    write_fields(definitions, &def.params, fields, &mut buf);
    assert(buf@ =~= ser_call(
        all_views(definitions@),
        function as int,
        fields_view(fields@),
    ));
    Some(buf)
}

} // verus!
