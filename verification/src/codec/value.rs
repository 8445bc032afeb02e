//! Values of the types of a schema, and what their bytes are.

use crate::codec::schema::bare_constructor;
use crate::codec::schema::boxed_constructor;
use crate::codec::schema::condition_of;
use crate::codec::schema::element_of;
use crate::codec::schema::shape_of;
use crate::codec::schema::Shape;
use crate::codec::wire::bytes_at;
use crate::codec::wire::bytes_encoding;
use crate::codec::wire::i32_at;
use crate::codec::wire::i32_bytes;
use crate::codec::wire::i64_at;
use crate::codec::wire::i64_bytes;
use crate::codec::wire::u32_at;
use crate::codec::wire::u32_bytes;
use crate::codec::wire::u64_at;
use crate::codec::wire::u64_bytes;
use crate::codec::wire::DecodeError;
use crate::codec::wire::BOOL_FALSE_ID;
use crate::codec::wire::BOOL_TRUE_ID;
use crate::codec::wire::LENGTH_LIMIT;
use crate::codec::wire::VECTOR_ID;
use crate::tl::category::Category;
use crate::tl::definition::DefinitionView;
use crate::tl::parameter::ParameterTypeView;
use crate::tl::parameter::ParameterView;
use crate::tl::ty::TypeView;
use vstd::prelude::*;

verus! {

/// A value of a type of the schema.
#[derive(Debug, PartialEq, Eq)]
pub enum Value {
    /// An `int`.
    Int(i32),
    /// A `long`.
    Long(i64),
    /// A `double`, by the bits of its IEEE 754 form.
    Double(u64),
    /// An `int128` or an `int256`, by its bytes.
    Raw(Vec<u8>),
    /// A `bytes` or a `string`.
    Bytes(Vec<u8>),
    /// A `Bool`.
    Bool(bool),
    /// The `true` of a flag.
    True,
    /// A vector.
    Vector(Vec<Value>),
    /// A value of a constructor: its identifier, and one field for each of
    /// its parameters. The field of a flags parameter is absent, and so is
    /// that of a conditional parameter that is not there.
    Object { id: u32, fields: Vec<Option<Value>> },
}

/// `Value` as a mathematical value.
pub enum ValueView {
    Int(i32),
    Long(i64),
    Double(u64),
    Raw(Seq<u8>),
    Bytes(Seq<u8>),
    Bool(bool),
    True,
    Vector(Seq<ValueView>),
    Object { id: u32, fields: Seq<Option<ValueView>> },
}

/// The view of a value.
pub open spec fn value_view(value: Value) -> ValueView
    decreases value,
{
    match value {
        Value::Int(v) => ValueView::Int(v),
        Value::Long(v) => ValueView::Long(v),
        Value::Double(v) => ValueView::Double(v),
        Value::Raw(bytes) => ValueView::Raw(bytes@),
        Value::Bytes(bytes) => ValueView::Bytes(bytes@),
        Value::Bool(v) => ValueView::Bool(v),
        Value::True => ValueView::True,
        Value::Vector(items) => ValueView::Vector(
            Seq::new(
                items@.len(),
                |i: int|
                    if 0 <= i < items@.len() {
                        value_view(items@[i])
                    } else {
                        ValueView::True
                    },
            ),
        ),
        Value::Object { id, fields } => ValueView::Object {
            id,
            fields: Seq::new(
                fields@.len(),
                |i: int|
                    if 0 <= i < fields@.len() {
                        match fields@[i] {
                            Some(v) => Some(value_view(v)),
                            None => None,
                        }
                    } else {
                        None
                    },
            ),
        },
    }
}

impl View for Value {
    type V = ValueView;

    open spec fn view(&self) -> ValueView {
        value_view(*self)
    }
}

/// The views of the elements of a vector.
pub open spec fn items_view(items: Seq<Value>) -> Seq<ValueView> {
    Seq::new(items.len(), |i: int| items[i]@)
}

/// The view of a field.
pub open spec fn field_view(field: Option<Value>) -> Option<ValueView> {
    match field {
        Some(v) => Some(v@),
        None => None,
    }
}

/// The views of the fields of a constructor.
pub open spec fn fields_view(fields: Seq<Option<Value>>) -> Seq<Option<ValueView>> {
    Seq::new(fields.len(), |i: int| field_view(fields[i]))
}

/// The view of a vector is the vector of the views of its elements.
pub proof fn lemma_vector_view(items: Vec<Value>)
    ensures
        Value::Vector(items)@ == ValueView::Vector(items_view(items@)),
{
    let a = Value::Vector(items)@->Vector_0;
    assert(a =~= items_view(items@));
}

/// The view of a value of a constructor has the views of its fields.
pub proof fn lemma_object_view(id: u32, fields: Vec<Option<Value>>)
    ensures
        (Value::Object { id, fields })@ == (ValueView::Object {
            id,
            fields: fields_view(fields@),
        }),
{
    let a = (Value::Object { id, fields })@->Object_fields;
    assert(a =~= fields_view(fields@));
}

/// The bits of the flags parameter `j` that the first `n` fields set: one
/// for every conditional parameter of `j` that is present.
pub open spec fn mask_of(
    params: Seq<ParameterView>,
    fields: Seq<Option<ValueView>>,
    j: int,
    n: int,
) -> u32
    decreases n,
{
    if n <= 0 {
        0
    } else {
        let rest = mask_of(params, fields, j, n - 1);
        match condition_of(params, n - 1) {
            Some((flags, bit)) if flags == j && fields[n - 1] is Some => rest | (1u32 << bit),
            _ => rest,
        }
    }
}

/// Whether bit `bit` of `mask` is set.
pub open spec fn bit_set(mask: u32, bit: u32) -> bool {
    (mask >> bit) & 1 == 1
}

/// Whether `v` is a value of the type `ty` in the schema `defs`.
pub open spec fn conforms(defs: Seq<DefinitionView>, ty: TypeView, v: ValueView) -> bool
    decreases v,
{
    match (shape_of(ty), v) {
        (Shape::Int, ValueView::Int(_)) => true,
        (Shape::Long, ValueView::Long(_)) => true,
        (Shape::Double, ValueView::Double(_)) => true,
        (Shape::Int128, ValueView::Raw(bytes)) => bytes.len() == 16,
        (Shape::Int256, ValueView::Raw(bytes)) => bytes.len() == 32,
        (Shape::Bytes, ValueView::Bytes(bytes)) => bytes.len() < LENGTH_LIMIT,
        (Shape::Bool, ValueView::Bool(_)) => true,
        (Shape::True, ValueView::True) => true,
        (Shape::BoxedVector, ValueView::Vector(items)) => items_conform(
            defs,
            element_of(ty),
            items,
        ),
        (Shape::BareVector, ValueView::Vector(items)) => items_conform(
            defs,
            element_of(ty),
            items,
        ),
        (Shape::Boxed, ValueView::Object { id, fields }) => match boxed_constructor(
            defs,
            ty,
            id,
            0,
        ) {
            Some(c) => fields_conform(defs, defs[c].params, fields),
            None => false,
        },
        (Shape::Bare, ValueView::Object { id, fields }) => match bare_constructor(defs, ty, 0) {
            Some(c) => id == defs[c].id && fields_conform(defs, defs[c].params, fields),
            None => false,
        },
        _ => false,
    }
}

/// Whether `items` are the elements of a vector of `element`.
pub open spec fn items_conform(
    defs: Seq<DefinitionView>,
    element: TypeView,
    items: Seq<ValueView>,
) -> bool
    decreases items,
{
    items.len() <= i32::MAX && forall|i: int|
        0 <= i < items.len() ==> conforms(defs, element, #[trigger] items[i])
}

/// Whether `fields` are the fields of a constructor with the parameters
/// `params`.
pub open spec fn fields_conform(
    defs: Seq<DefinitionView>,
    params: Seq<ParameterView>,
    fields: Seq<Option<ValueView>>,
) -> bool
    decreases fields,
{
    fields.len() == params.len() && forall|k: int|
        0 <= k < fields.len() ==> field_conforms(defs, params, fields, k, #[trigger] fields[k])
}

/// Whether `field` is the field `k` of a constructor with the parameters
/// `params`. A flags parameter has no field. A parameter without condition
/// has one. A conditional parameter names a flags parameter before it and
/// one of its 32 bits, and is present exactly if the others of that bit are.
pub open spec fn field_conforms(
    defs: Seq<DefinitionView>,
    params: Seq<ParameterView>,
    fields: Seq<Option<ValueView>>,
    k: int,
    field: Option<ValueView>,
) -> bool
    decreases field,
{
    match params[k].ty {
        ParameterTypeView::Flags => field is None,
        ParameterTypeView::Normal { ty, flag } => {
            &&& match field {
                Some(v) => conforms(defs, ty, v),
                None => flag is Some,
            }
            &&& flag is Some ==> condition_of(params, k) is Some && forall|j: int|
                0 <= j < fields.len() && condition_of(params, j) == condition_of(params, k) ==> (
                #[trigger] fields[j] is Some <==> field is Some)
        },
    }
}

/// The bytes of the value `v` of the type `ty`.
pub open spec fn ser(defs: Seq<DefinitionView>, ty: TypeView, v: ValueView) -> Seq<u8>
    decreases v, 0nat,
{
    match (shape_of(ty), v) {
        (Shape::Int, ValueView::Int(x)) => i32_bytes(x),
        (Shape::Long, ValueView::Long(x)) => i64_bytes(x),
        (Shape::Double, ValueView::Double(bits)) => u64_bytes(bits),
        (Shape::Int128, ValueView::Raw(bytes)) => bytes,
        (Shape::Int256, ValueView::Raw(bytes)) => bytes,
        (Shape::Bytes, ValueView::Bytes(bytes)) => bytes_encoding(bytes),
        (Shape::Bool, ValueView::Bool(b)) => u32_bytes(
            if b {
                BOOL_TRUE_ID
            } else {
                BOOL_FALSE_ID
            },
        ),
        (Shape::BoxedVector, ValueView::Vector(items)) => u32_bytes(VECTOR_ID) + i32_bytes(
            items.len() as i32,
        ) + ser_items(defs, element_of(ty), items, items.len()),
        (Shape::BareVector, ValueView::Vector(items)) => i32_bytes(items.len() as i32)
            + ser_items(defs, element_of(ty), items, items.len()),
        (Shape::Boxed, ValueView::Object { id, fields }) => match boxed_constructor(
            defs,
            ty,
            id,
            0,
        ) {
            Some(c) => u32_bytes(id) + ser_fields(defs, defs[c].params, fields, fields.len()),
            None => Seq::empty(),
        },
        (Shape::Bare, ValueView::Object { id, fields }) => match bare_constructor(defs, ty, 0) {
            Some(c) => ser_fields(defs, defs[c].params, fields, fields.len()),
            None => Seq::empty(),
        },
        _ => Seq::empty(),
    }
}

/// The bytes of the first `n` of the elements `items` of a vector.
pub open spec fn ser_items(
    defs: Seq<DefinitionView>,
    element: TypeView,
    items: Seq<ValueView>,
    n: nat,
) -> Seq<u8>
    decreases items, n,
{
    if n == 0 || n > items.len() {
        Seq::empty()
    } else {
        ser_items(defs, element, items, (n - 1) as nat) + ser(defs, element, items[n - 1])
    }
}

/// The bytes of the first `n` of the fields of a constructor: the mask for a
/// flags parameter, the value for a parameter that is present, and nothing
/// for one that is absent.
pub open spec fn ser_fields(
    defs: Seq<DefinitionView>,
    params: Seq<ParameterView>,
    fields: Seq<Option<ValueView>>,
    n: nat,
) -> Seq<u8>
    decreases fields, n,
{
    if n == 0 || n > fields.len() {
        Seq::empty()
    } else {
        ser_fields(defs, params, fields, (n - 1) as nat) + match params[n - 1].ty {
            ParameterTypeView::Flags => u32_bytes(
                mask_of(params, fields, n - 1, fields.len() as int),
            ),
            ParameterTypeView::Normal { ty, flag } => match fields[n - 1] {
                Some(v) => ser(defs, ty, v),
                None => Seq::empty(),
            },
        }
    }
}

/// Whether `fields` are the arguments of a call of the function at index
/// `c` of the schema.
pub open spec fn call_conforms(
    defs: Seq<DefinitionView>,
    c: int,
    fields: Seq<Option<ValueView>>,
) -> bool {
    0 <= c < defs.len() && defs[c].category == Category::Functions && fields_conform(
        defs,
        defs[c].params,
        fields,
    )
}

/// The bytes of a call of the function at index `c`: its identifier, then
/// its arguments.
pub open spec fn ser_call(defs: Seq<DefinitionView>, c: int, fields: Seq<Option<ValueView>>) -> Seq<
    u8,
> {
    u32_bytes(defs[c].id) + ser_fields(defs, defs[c].params, fields, fields.len())
}

/// The type of the response to a call of the function at index `c`: the
/// type that the function declares.
pub open spec fn response_type(defs: Seq<DefinitionView>, c: int) -> TypeView {
    defs[c].ty
}

/// What has been read of the fields of a constructor: the fields, the masks
/// of the flags parameters among them, and where the next field starts.
pub struct Decoded {
    pub fields: Seq<Option<ValueView>>,
    pub masks: Seq<u32>,
    pub pos: int,
}

/// Whether the parameter `k` is present, given the masks read before it: a
/// parameter without condition is; a conditional one is if its bit is set.
pub open spec fn is_present(params: Seq<ParameterView>, masks: Seq<u32>, k: int) -> bool {
    match params[k].ty {
        ParameterTypeView::Normal { ty, flag: Some(_) } => match condition_of(params, k) {
            Some((j, bit)) => bit_set(masks[j], bit),
            None => false,
        },
        _ => true,
    }
}

/// The value of the type `ty` that `s` holds at `pos`, and where it ends.
/// The reader follows nested values `fuel` levels deep.
pub open spec fn de(
    defs: Seq<DefinitionView>,
    ty: TypeView,
    s: Seq<u8>,
    pos: int,
    fuel: nat,
) -> Result<(ValueView, int), DecodeError>
    decreases fuel, 0nat, 0nat,
{
    match shape_of(ty) {
        Shape::Int => if 0 <= pos && pos + 4 <= s.len() {
            Ok((ValueView::Int(i32_at(s, pos)), pos + 4))
        } else {
            Err(DecodeError::UnexpectedEof)
        },
        Shape::Long => if 0 <= pos && pos + 8 <= s.len() {
            Ok((ValueView::Long(i64_at(s, pos)), pos + 8))
        } else {
            Err(DecodeError::UnexpectedEof)
        },
        Shape::Double => if 0 <= pos && pos + 8 <= s.len() {
            Ok((ValueView::Double(u64_at(s, pos)), pos + 8))
        } else {
            Err(DecodeError::UnexpectedEof)
        },
        Shape::Int128 => if 0 <= pos && pos + 16 <= s.len() {
            Ok((ValueView::Raw(s.subrange(pos, pos + 16)), pos + 16))
        } else {
            Err(DecodeError::UnexpectedEof)
        },
        Shape::Int256 => if 0 <= pos && pos + 32 <= s.len() {
            Ok((ValueView::Raw(s.subrange(pos, pos + 32)), pos + 32))
        } else {
            Err(DecodeError::UnexpectedEof)
        },
        Shape::Bytes => match bytes_at(s, pos) {
            Some((bytes, next)) => Ok((ValueView::Bytes(bytes), next)),
            None => Err(DecodeError::UnexpectedEof),
        },
        Shape::Bool => if !(0 <= pos && pos + 4 <= s.len()) {
            Err(DecodeError::UnexpectedEof)
        } else if u32_at(s, pos) == BOOL_TRUE_ID {
            Ok((ValueView::Bool(true), pos + 4))
        } else if u32_at(s, pos) == BOOL_FALSE_ID {
            Ok((ValueView::Bool(false), pos + 4))
        } else {
            Err(DecodeError::UnexpectedConstructor { id: u32_at(s, pos) })
        },
        Shape::True => Ok((ValueView::True, pos)),
        Shape::BoxedVector => if fuel == 0 {
            Err(DecodeError::TooDeep)
        } else if !(0 <= pos && pos + 4 <= s.len()) {
            Err(DecodeError::UnexpectedEof)
        } else if u32_at(s, pos) != VECTOR_ID {
            Err(DecodeError::UnexpectedConstructor { id: u32_at(s, pos) })
        } else {
            de_vector(defs, element_of(ty), s, pos + 4, (fuel - 1) as nat)
        },
        Shape::BareVector => if fuel == 0 {
            Err(DecodeError::TooDeep)
        } else {
            de_vector(defs, element_of(ty), s, pos, (fuel - 1) as nat)
        },
        Shape::Boxed => if fuel == 0 {
            Err(DecodeError::TooDeep)
        } else if !(0 <= pos && pos + 4 <= s.len()) {
            Err(DecodeError::UnexpectedEof)
        } else {
            match boxed_constructor(defs, ty, u32_at(s, pos), 0) {
                Some(c) => match de_fields(
                    defs,
                    defs[c].params,
                    s,
                    pos + 4,
                    (fuel - 1) as nat,
                    defs[c].params.len(),
                ) {
                    Ok(decoded) => Ok(
                        (
                            ValueView::Object { id: u32_at(s, pos), fields: decoded.fields },
                            decoded.pos,
                        ),
                    ),
                    Err(e) => Err(e),
                },
                None => Err(DecodeError::UnexpectedConstructor { id: u32_at(s, pos) }),
            }
        },
        Shape::Bare => if fuel == 0 {
            Err(DecodeError::TooDeep)
        } else {
            match bare_constructor(defs, ty, 0) {
                Some(c) => match de_fields(
                    defs,
                    defs[c].params,
                    s,
                    pos,
                    (fuel - 1) as nat,
                    defs[c].params.len(),
                ) {
                    Ok(decoded) => Ok(
                        (ValueView::Object { id: defs[c].id, fields: decoded.fields }, decoded.pos),
                    ),
                    Err(e) => Err(e),
                },
                None => Err(DecodeError::UnknownType),
            }
        },
        Shape::Unknown => Err(DecodeError::UnknownType),
    }
}

/// The vector of `element` that `s` holds at `pos`, from its count on.
pub open spec fn de_vector(
    defs: Seq<DefinitionView>,
    element: TypeView,
    s: Seq<u8>,
    pos: int,
    fuel: nat,
) -> Result<(ValueView, int), DecodeError>
    decreases fuel, 2nat, 0nat,
{
    if !(0 <= pos && pos + 4 <= s.len()) {
        Err(DecodeError::UnexpectedEof)
    } else if i32_at(s, pos) < 0 {
        Err(DecodeError::NegativeCount)
    } else {
        match de_items(defs, element, s, pos + 4, fuel, i32_at(s, pos) as nat) {
            Ok((items, next)) => Ok((ValueView::Vector(items), next)),
            Err(e) => Err(e),
        }
    }
}

/// The first `count` elements of a vector of `element` that `s` holds from
/// `pos` on, and where they end.
pub open spec fn de_items(
    defs: Seq<DefinitionView>,
    element: TypeView,
    s: Seq<u8>,
    pos: int,
    fuel: nat,
    count: nat,
) -> Result<(Seq<ValueView>, int), DecodeError>
    decreases fuel, 1nat, count,
{
    if count == 0 {
        Ok((Seq::empty(), pos))
    } else {
        match de_items(defs, element, s, pos, fuel, (count - 1) as nat) {
            Ok((items, at)) => match de(defs, element, s, at, fuel) {
                Ok((v, next)) => Ok((items.push(v), next)),
                Err(e) => Err(e),
            },
            Err(e) => Err(e),
        }
    }
}

/// The first `k` fields of a constructor with the parameters `params` that
/// `s` holds from `pos` on. A flags parameter gives its mask and no field; a
/// parameter that is not present gives an absent field and takes no bytes.
pub open spec fn de_fields(
    defs: Seq<DefinitionView>,
    params: Seq<ParameterView>,
    s: Seq<u8>,
    pos: int,
    fuel: nat,
    k: nat,
) -> Result<Decoded, DecodeError>
    decreases fuel, 1nat, k,
{
    if k == 0 {
        Ok(Decoded { fields: Seq::empty(), masks: Seq::empty(), pos })
    } else {
        match de_fields(defs, params, s, pos, fuel, (k - 1) as nat) {
            Err(e) => Err(e),
            Ok(before) => match params[k - 1].ty {
                ParameterTypeView::Flags => if 0 <= before.pos && before.pos + 4 <= s.len() {
                    Ok(
                        Decoded {
                            fields: before.fields.push(None),
                            masks: before.masks.push(u32_at(s, before.pos)),
                            pos: before.pos + 4,
                        },
                    )
                } else {
                    Err(DecodeError::UnexpectedEof)
                },
                ParameterTypeView::Normal { ty, flag } => if is_present(
                    params,
                    before.masks,
                    k - 1,
                ) {
                    match de(defs, ty, s, before.pos, fuel) {
                        Ok((v, next)) => Ok(
                            Decoded {
                                fields: before.fields.push(Some(v)),
                                masks: before.masks.push(0),
                                pos: next,
                            },
                        ),
                        Err(e) => Err(e),
                    }
                } else {
                    Ok(
                        Decoded {
                            fields: before.fields.push(None),
                            masks: before.masks.push(0),
                            pos: before.pos,
                        },
                    )
                },
            },
        }
    }
}

/// Whether a reader that goes `fuel` levels deep reaches all of `v`.
pub open spec fn within_depth(v: ValueView, fuel: nat) -> bool
    decreases v,
{
    match v {
        ValueView::Vector(items) => fuel > 0 && forall|i: int|
            0 <= i < items.len() ==> within_depth(#[trigger] items[i], (fuel - 1) as nat),
        ValueView::Object { id, fields } => fuel > 0 && forall|k: int|
            0 <= k < fields.len() ==> match #[trigger] fields[k] {
                Some(field) => within_depth(field, (fuel - 1) as nat),
                None => true,
            },
        _ => true,
    }
}

} // verus!
