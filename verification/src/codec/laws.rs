//! What holds of the wire format: what is written is read back.

use crate::codec::schema::bare_constructor;
use crate::codec::schema::boxed_constructor;
use crate::codec::schema::condition_of;
use crate::codec::schema::element_of;
use crate::codec::schema::is_conditional;
use crate::codec::schema::lemma_bare_constructor;
use crate::codec::schema::lemma_boxed_constructor;
use crate::codec::schema::lemma_flags_position;
use crate::codec::schema::shape_of;
use crate::codec::schema::Shape;
use crate::codec::value::bit_set;
use crate::codec::value::conforms;
use crate::codec::value::de;
use crate::codec::value::de_fields;
use crate::codec::value::de_items;
use crate::codec::value::field_conforms;
use crate::codec::value::fields_conform;
use crate::codec::value::is_present;
use crate::codec::value::items_conform;
use crate::codec::value::mask_of;
use crate::codec::value::ser;
use crate::codec::value::ser_fields;
use crate::codec::value::ser_items;
use crate::codec::value::within_depth;
use crate::codec::value::Decoded;
use crate::codec::value::ValueView;
use crate::codec::wire::i32_bytes;
use crate::codec::wire::lemma_bytes_at;
use crate::codec::wire::lemma_bytes_encoding_aligned;
use crate::codec::wire::lemma_i32_round_trip;
use crate::codec::wire::lemma_i64_round_trip;
use crate::codec::wire::lemma_u32_at;
use crate::codec::wire::lemma_u64_at;
use crate::codec::wire::u32_bytes;
use crate::codec::wire::DecodeError;
use crate::codec::wire::BOOL_FALSE_ID;
use crate::codec::wire::BOOL_TRUE_ID;
use crate::codec::wire::VECTOR_ID;
use crate::tl::definition::DefinitionView;
use crate::tl::parameter::ParameterTypeView;
use crate::tl::parameter::ParameterView;
use crate::tl::ty::TypeView;
use vstd::prelude::*;

verus! {

/// Where `s` holds `a` and then `b` at `pos`, it holds `a` at `pos` and `b`
/// after it.
proof fn lemma_parts(s: Seq<u8>, pos: int, a: Seq<u8>, b: Seq<u8>)
    requires
        0 <= pos,
        pos + a.len() + b.len() <= s.len(),
        s.subrange(pos, pos + a.len() + b.len()) == a + b,
    ensures
        s.subrange(pos, pos + a.len()) == a,
        s.subrange(pos + a.len(), pos + a.len() + b.len()) == b,
{
    let whole = s.subrange(pos, pos + a.len() + b.len());
    assert(s.subrange(pos, pos + a.len()) =~= a) by {
        assert forall|i: int| 0 <= i < a.len() implies s[pos + i] == a[i] by {
            assert(whole[i] == s[pos + i]);
            assert((a + b)[i] == a[i]);
        }
    }
    assert(s.subrange(pos + a.len(), pos + a.len() + b.len()) =~= b) by {
        assert forall|i: int| 0 <= i < b.len() implies s[pos + a.len() + i] == b[i] by {
            assert(whole[a.len() + i] == s[pos + a.len() + i]);
            assert((a + b)[a.len() + i] == b[i]);
        }
    }
}

/// No bit of an empty mask is set, and a mask with one more bit has that bit
/// and those it had.
proof fn lemma_bits(mask: u32, added: u32, bit: u32)
    requires
        added < 32,
        bit < 32,
    ensures
        !bit_set(0, bit),
        bit_set(mask | (1u32 << added), bit) == (bit_set(mask, bit) || bit == added),
{
    assert((0u32 >> bit) & 1 == 0) by (bit_vector);
    assert(((mask | (1u32 << added)) >> bit) & 1 == 1 <==> ((mask >> bit) & 1 == 1 || bit
        == added)) by (bit_vector)
        requires
            added < 32,
            bit < 32,
    ;
}

/// Whether one of the first `n` parameters has the condition `(j, bit)` and
/// is present.
pub open spec fn some_present(
    params: Seq<ParameterView>,
    fields: Seq<Option<ValueView>>,
    j: int,
    bit: u32,
    n: int,
) -> bool {
    exists|m: int|
        0 <= m < n && condition_of(params, m) == Some((j, bit)) && #[trigger] fields[m] is Some
}

/// A bit of the mask of a flags parameter is set exactly if one of the
/// parameters with that bit is present.
pub proof fn lemma_mask_bit(
    params: Seq<ParameterView>,
    fields: Seq<Option<ValueView>>,
    j: int,
    bit: u32,
    n: int,
)
    requires
        bit < 32,
        0 <= n <= fields.len(),
        fields.len() == params.len(),
    ensures
        bit_set(mask_of(params, fields, j, n), bit) == some_present(params, fields, j, bit, n),
    decreases n,
{
    if n <= 0 {
        lemma_bits(0, 0, bit);
    } else {
        lemma_mask_bit(params, fields, j, bit, n - 1);
        let rest = mask_of(params, fields, j, n - 1);
        match condition_of(params, n - 1) {
            Some((flags, added)) => {
                lemma_flags_position(
                    params,
                    params[n - 1].ty->Normal_flag->0.name,
                    n - 1,
                    0,
                );
                if flags == j && fields[n - 1] is Some {
                    lemma_bits(rest, added, bit);
                    if bit == added {
                        assert(condition_of(params, n - 1) == Some((j, bit)));
                        assert(fields[n - 1] is Some);
                    }
                }
            },
            None => {},
        }
        if some_present(params, fields, j, bit, n) {
            let m = choose|m: int|
                0 <= m < n && condition_of(params, m) == Some((j, bit))
                    && #[trigger] fields[m] is Some;
            if m < n - 1 {
                assert(some_present(params, fields, j, bit, n - 1));
            }
        }
        if some_present(params, fields, j, bit, n - 1) {
            let m = choose|m: int|
                0 <= m < n - 1 && condition_of(params, m) == Some((j, bit))
                    && #[trigger] fields[m] is Some;
            assert(0 <= m < n && condition_of(params, m) == Some((j, bit)) && fields[m] is Some);
        }
    }
}

/// A conditional parameter is written exactly if its bit is set in the mask
/// that is written for its flags parameter: where it is present its value is
/// written and the bit is set, and where it is absent nothing is written and
/// the bit is clear.
pub proof fn lemma_conditional_field(
    defs: Seq<DefinitionView>,
    params: Seq<ParameterView>,
    fields: Seq<Option<ValueView>>,
    k: int,
)
    requires
        fields_conform(defs, params, fields),
        0 <= k < params.len(),
        is_conditional(params, k),
    ensures
        condition_of(params, k) matches Some((j, bit)) && 0 <= j < k && params[j].ty is Flags
            && (fields[k] is Some <==> bit_set(mask_of(params, fields, j, fields.len() as int), bit)),
        fields[k] is None ==> ser_fields(defs, params, fields, (k + 1) as nat) == ser_fields(
            defs,
            params,
            fields,
            k as nat,
        ),
{
    assert(field_conforms(defs, params, fields, k, fields[k]));
    let (j, bit) = condition_of(params, k)->0;
    lemma_flags_position(params, params[k].ty->Normal_flag->0.name, k, 0);
    lemma_mask_bit(params, fields, j, bit, fields.len() as int);
    if some_present(params, fields, j, bit, fields.len() as int) {
        let m = choose|m: int|
            0 <= m < fields.len() && condition_of(params, m) == Some((j, bit))
                && #[trigger] fields[m] is Some;
        assert(fields[m] is Some <==> fields[k] is Some);
    }
    if fields[k] is None {
        assert(ser_fields(defs, params, fields, (k + 1) as nat) =~= ser_fields(
            defs,
            params,
            fields,
            k as nat,
        ));
    }
}

/// A conditional parameter whose bit is clear is read as absent, and takes
/// no bytes.
pub proof fn lemma_absent_field(
    defs: Seq<DefinitionView>,
    params: Seq<ParameterView>,
    s: Seq<u8>,
    pos: int,
    fuel: nat,
    k: nat,
)
    requires
        k < params.len(),
        is_conditional(params, k as int),
        de_fields(defs, params, s, pos, fuel, k) is Ok,
        !is_present(params, de_fields(defs, params, s, pos, fuel, k)->Ok_0.masks, k as int),
    ensures
        de_fields(defs, params, s, pos, fuel, k + 1) == Ok::<Decoded, DecodeError>(
            Decoded {
                fields: de_fields(defs, params, s, pos, fuel, k)->Ok_0.fields.push(None),
                masks: de_fields(defs, params, s, pos, fuel, k)->Ok_0.masks.push(0),
                pos: de_fields(defs, params, s, pos, fuel, k)->Ok_0.pos,
            },
        ),
{
    assert(((k + 1) - 1) as nat == k);
}

/// The masks that are written for the first `n` parameters: that of each
/// flags parameter, and zero for the others.
pub open spec fn written_masks(
    params: Seq<ParameterView>,
    fields: Seq<Option<ValueView>>,
    n: nat,
) -> Seq<u32> {
    Seq::new(
        n,
        |j: int|
            if params[j].ty is Flags {
                mask_of(params, fields, j, fields.len() as int)
            } else {
                0
            },
    )
}

/// What is written is read back: where `s` holds the bytes of a value of the
/// type `ty` at `pos`, a reader that goes deep enough reads that value there
/// and ends where the bytes end.
pub proof fn lemma_round_trip_at(
    defs: Seq<DefinitionView>,
    ty: TypeView,
    v: ValueView,
    s: Seq<u8>,
    pos: int,
    fuel: nat,
)
    requires
        conforms(defs, ty, v),
        within_depth(v, fuel),
        0 <= pos,
        pos + ser(defs, ty, v).len() <= s.len(),
        s.subrange(pos, pos + ser(defs, ty, v).len()) == ser(defs, ty, v),
    ensures
        de(defs, ty, s, pos, fuel) == Ok::<(ValueView, int), DecodeError>(
            (v, pos + ser(defs, ty, v).len()),
        ),
    decreases v, 0nat,
{
    let bytes = ser(defs, ty, v);
    match (shape_of(ty), v) {
        (Shape::Int, ValueView::Int(x)) => {
            lemma_u32_at(s, pos, x as u32);
            lemma_i32_round_trip(x);
        },
        (Shape::Long, ValueView::Long(x)) => {
            lemma_u64_at(s, pos, x as u64);
            lemma_i64_round_trip(x);
        },
        (Shape::Double, ValueView::Double(bits)) => {
            lemma_u64_at(s, pos, bits);
        },
        (Shape::Int128, ValueView::Raw(raw)) => {},
        (Shape::Int256, ValueView::Raw(raw)) => {},
        (Shape::Bytes, ValueView::Bytes(data)) => {
            lemma_bytes_at(s, pos, data);
        },
        (Shape::Bool, ValueView::Bool(b)) => {
            lemma_u32_at(
                s,
                pos,
                if b {
                    BOOL_TRUE_ID
                } else {
                    BOOL_FALSE_ID
                },
            );
        },
        (Shape::True, ValueView::True) => {},
        (Shape::BoxedVector, ValueView::Vector(items)) => {
            let element = element_of(ty);
            let head = u32_bytes(VECTOR_ID) + i32_bytes(items.len() as i32);
            let body = ser_items(defs, element, items, items.len());
            assert(bytes =~= head + body);
            lemma_parts(s, pos, head, body);
            lemma_parts(s, pos, u32_bytes(VECTOR_ID), i32_bytes(items.len() as i32));
            lemma_u32_at(s, pos, VECTOR_ID);
            lemma_u32_at(s, pos + 4, (items.len() as i32) as u32);
            lemma_i32_round_trip(items.len() as i32);
            lemma_items_round_trip(
                defs,
                element,
                items,
                s,
                pos + 8,
                (fuel - 1) as nat,
                items.len(),
            );
            assert(items.take(items.len() as int) =~= items);
        },
        (Shape::BareVector, ValueView::Vector(items)) => {
            let element = element_of(ty);
            let head = i32_bytes(items.len() as i32);
            let body = ser_items(defs, element, items, items.len());
            lemma_parts(s, pos, head, body);
            lemma_u32_at(s, pos, (items.len() as i32) as u32);
            lemma_i32_round_trip(items.len() as i32);
            lemma_items_round_trip(
                defs,
                element,
                items,
                s,
                pos + 4,
                (fuel - 1) as nat,
                items.len(),
            );
            assert(items.take(items.len() as int) =~= items);
        },
        (Shape::Boxed, ValueView::Object { id, fields }) => {
            lemma_boxed_constructor(defs, ty, id, 0);
            let c = boxed_constructor(defs, ty, id, 0)->0;
            let params = defs[c].params;
            let body = ser_fields(defs, params, fields, fields.len());
            lemma_parts(s, pos, u32_bytes(id), body);
            lemma_u32_at(s, pos, id);
            lemma_fields_round_trip(
                defs,
                params,
                fields,
                s,
                pos + 4,
                (fuel - 1) as nat,
                fields.len(),
            );
            assert(fields.take(fields.len() as int) =~= fields);
        },
        (Shape::Bare, ValueView::Object { id, fields }) => {
            lemma_bare_constructor(defs, ty, 0);
            let c = bare_constructor(defs, ty, 0)->0;
            let params = defs[c].params;
            lemma_fields_round_trip(
                defs,
                params,
                fields,
                s,
                pos,
                (fuel - 1) as nat,
                fields.len(),
            );
            assert(fields.take(fields.len() as int) =~= fields);
        },
        _ => {},
    }
}

/// The first `n` elements of a vector are read back from where their bytes
/// stand.
pub proof fn lemma_items_round_trip(
    defs: Seq<DefinitionView>,
    element: TypeView,
    items: Seq<ValueView>,
    s: Seq<u8>,
    pos: int,
    fuel: nat,
    n: nat,
)
    requires
        items_conform(defs, element, items),
        forall|i: int| 0 <= i < items.len() ==> within_depth(#[trigger] items[i], fuel),
        n <= items.len(),
        0 <= pos,
        pos + ser_items(defs, element, items, n).len() <= s.len(),
        s.subrange(pos, pos + ser_items(defs, element, items, n).len()) == ser_items(
            defs,
            element,
            items,
            n,
        ),
    ensures
        de_items(defs, element, s, pos, fuel, n) == Ok::<(Seq<ValueView>, int), DecodeError>(
            (items.take(n as int), pos + ser_items(defs, element, items, n).len()),
        ),
    decreases items, n,
{
    if n == 0 {
        assert(items.take(0) =~= Seq::<ValueView>::empty());
    } else {
        let before = ser_items(defs, element, items, (n - 1) as nat);
        let last = ser(defs, element, items[n - 1]);
        lemma_parts(s, pos, before, last);
        lemma_items_round_trip(defs, element, items, s, pos, fuel, (n - 1) as nat);
        lemma_round_trip_at(defs, element, items[n - 1], s, pos + before.len(), fuel);
        assert(items.take(n as int) =~= items.take(n - 1).push(items[n - 1]));
    }
}

/// The first `n` fields of a constructor are read back from where their
/// bytes stand, and so are the masks of its flags parameters.
pub proof fn lemma_fields_round_trip(
    defs: Seq<DefinitionView>,
    params: Seq<ParameterView>,
    fields: Seq<Option<ValueView>>,
    s: Seq<u8>,
    pos: int,
    fuel: nat,
    n: nat,
)
    requires
        fields_conform(defs, params, fields),
        forall|k: int|
            0 <= k < fields.len() ==> match #[trigger] fields[k] {
                Some(field) => within_depth(field, fuel),
                None => true,
            },
        n <= fields.len(),
        0 <= pos,
        pos + ser_fields(defs, params, fields, n).len() <= s.len(),
        s.subrange(pos, pos + ser_fields(defs, params, fields, n).len()) == ser_fields(
            defs,
            params,
            fields,
            n,
        ),
    ensures
        de_fields(defs, params, s, pos, fuel, n) == Ok::<Decoded, DecodeError>(
            Decoded {
                fields: fields.take(n as int),
                masks: written_masks(params, fields, n),
                pos: pos + ser_fields(defs, params, fields, n).len(),
            },
        ),
    decreases fields, n,
{
    if n == 0 {
        assert(fields.take(0) =~= Seq::<Option<ValueView>>::empty());
        assert(written_masks(params, fields, 0) =~= Seq::<u32>::empty());
    } else {
        let k = n - 1;
        let before = ser_fields(defs, params, fields, k as nat);
        let last = match params[k].ty {
            ParameterTypeView::Flags => u32_bytes(mask_of(params, fields, k, fields.len() as int)),
            ParameterTypeView::Normal { ty, flag } => match fields[k] {
                Some(v) => ser(defs, ty, v),
                None => Seq::empty(),
            },
        };
        assert(ser_fields(defs, params, fields, n) == before + last);
        lemma_parts(s, pos, before, last);
        lemma_fields_round_trip(defs, params, fields, s, pos, fuel, k as nat);
        let masks = written_masks(params, fields, k as nat);
        assert(field_conforms(defs, params, fields, k, fields[k]));
        match params[k].ty {
            ParameterTypeView::Flags => {
                lemma_u32_at(
                    s,
                    pos + before.len(),
                    mask_of(params, fields, k, fields.len() as int),
                );
                assert(written_masks(params, fields, n) =~= masks.push(
                    mask_of(params, fields, k, fields.len() as int),
                ));
                assert(fields.take(n as int) =~= fields.take(k).push(None));
            },
            ParameterTypeView::Normal { ty, flag } => {
                if flag is Some {
                    lemma_conditional_field(defs, params, fields, k);
                    let (j, bit) = condition_of(params, k)->0;
                    assert(masks[j] == mask_of(params, fields, j, fields.len() as int));
                }
                assert(is_present(params, masks, k) == (fields[k] is Some));
                assert(written_masks(params, fields, n) =~= masks.push(0));
                match fields[k] {
                    Some(v) => {
                        lemma_round_trip_at(defs, ty, v, s, pos + before.len(), fuel);
                        assert(fields.take(n as int) =~= fields.take(k).push(Some(v)));
                    },
                    None => {
                        assert(fields.take(n as int) =~= fields.take(k).push(None));
                    },
                }
            },
        }
    }
}

/// Every value of the schema survives the way through its bytes: read from
/// the bytes that were written for it, it is the same value, and all the
/// bytes are used.
pub proof fn lemma_round_trip(defs: Seq<DefinitionView>, ty: TypeView, v: ValueView, fuel: nat)
    requires
        conforms(defs, ty, v),
        within_depth(v, fuel),
    ensures
        de(defs, ty, ser(defs, ty, v), 0, fuel) == Ok::<(ValueView, int), DecodeError>(
            (v, ser(defs, ty, v).len() as int),
        ),
{
    let bytes = ser(defs, ty, v);
    assert(bytes.subrange(0, bytes.len() as int) =~= bytes);
    lemma_round_trip_at(defs, ty, v, bytes, 0, fuel);
}

/// A byte string fills a whole number of four-byte words on the wire, and is
/// read back from them.
pub proof fn lemma_bytes_field(defs: Seq<DefinitionView>, ty: TypeView, data: Seq<u8>)
    requires
        shape_of(ty) == Shape::Bytes,
        conforms(defs, ty, ValueView::Bytes(data)),
    ensures
        ser(defs, ty, ValueView::Bytes(data)).len() % 4 == 0,
        de(defs, ty, ser(defs, ty, ValueView::Bytes(data)), 0, 0) == Ok::<
            (ValueView, int),
            DecodeError,
        >((ValueView::Bytes(data), ser(defs, ty, ValueView::Bytes(data)).len() as int)),
{
    lemma_bytes_encoding_aligned(data);
    lemma_round_trip(defs, ty, ValueView::Bytes(data), 0);
}

/// A boxed vector starts with the identifier of vectors and its length,
/// both with the least significant byte first; a bare vector starts with its
/// length.
pub proof fn lemma_vector_header(defs: Seq<DefinitionView>, ty: TypeView, items: Seq<ValueView>)
    requires
        conforms(defs, ty, ValueView::Vector(items)),
    ensures
        u32_bytes(VECTOR_ID) == seq![0x15u8, 0xc4u8, 0xb5u8, 0x1cu8],
        shape_of(ty) == Shape::BoxedVector ==> ser(defs, ty, ValueView::Vector(items))
            == u32_bytes(VECTOR_ID) + u32_bytes(items.len() as u32) + ser_items(
            defs,
            element_of(ty),
            items,
            items.len(),
        ),
        shape_of(ty) == Shape::BareVector ==> ser(defs, ty, ValueView::Vector(items)) == u32_bytes(
            items.len() as u32,
        ) + ser_items(defs, element_of(ty), items, items.len()),
{
    let id: u32 = 0x1cb5_c415;
    assert(id as u8 == 0x15u8 && (id >> 8) as u8 == 0xc4u8 && (id >> 16) as u8 == 0xb5u8 && (id
        >> 24) as u8 == 0x1cu8) by (bit_vector)
        requires
            id == 0x1cb5_c415u32,
    ;
    assert(u32_bytes(VECTOR_ID) =~= seq![0x15u8, 0xc4u8, 0xb5u8, 0x1cu8]);
    let n = items.len() as i32;
    assert((n as u32) == items.len() as u32) by {
        assert(0 <= n);
    }
}

} // verus!
