//! The byte form of component state: a count-prefixed tuple of tagged,
//! fixed-width fields, checked against a schema as it is read.

use crate::describe::{Shape, Type};
use crate::error::DecodeError;
use crate::nested::{end_of_value, walk};
use vstd::prelude::*;
use vstd::slice::{slice_subrange, slice_to_vec};

verus! {

/// The tag that opens an encoded tuple.
pub const TAG_TUPLE: u8 = 0x23;

/// The tag that opens an encoded address.
pub const TAG_ADDRESS: u8 = 0x81;

/// The tag that opens a field of the given schema, where the schema is of
/// a fixed-width kind; `None` for every other schema.
pub open spec fn tag_of(shape: Shape) -> Option<u8> {
    match shape {
        Shape::Unit => Some(0x00u8),
        Shape::Bool => Some(0x01u8),
        Shape::I8 => Some(0x02u8),
        Shape::I16 => Some(0x03u8),
        Shape::I32 => Some(0x04u8),
        Shape::I64 => Some(0x05u8),
        Shape::I128 => Some(0x06u8),
        Shape::U8 => Some(0x07u8),
        Shape::U16 => Some(0x08u8),
        Shape::U32 => Some(0x09u8),
        Shape::U64 => Some(0x0au8),
        Shape::U128 => Some(0x0bu8),
        Shape::H256 => Some(0x80u8),
        Shape::Address => Some(TAG_ADDRESS),
        Shape::U256 => Some(0x82u8),
        Shape::BID => Some(0x83u8),
        Shape::RID => Some(0x84u8),
        _ => None,
    }
}

/// The number of bytes that follow the tag of a fixed-width field.
pub open spec fn width_of(shape: Shape) -> nat {
    match shape {
        Shape::Bool | Shape::I8 | Shape::U8 => 1,
        Shape::I16 | Shape::U16 => 2,
        Shape::I32 | Shape::U32 | Shape::BID | Shape::RID => 4,
        Shape::I64 | Shape::U64 => 8,
        Shape::I128 | Shape::U128 => 16,
        Shape::Address => 17,
        Shape::H256 | Shape::U256 => 32,
        _ => 0,
    }
}

/// Whether the bytes after the tag are a value of the schema: a boolean is
/// 0 or 1, and an address opens with one of its three kinds.
pub open spec fn payload_ok(shape: Shape, payload: Seq<u8>) -> bool {
    match shape {
        Shape::Bool => payload[0] <= 1,
        Shape::Address => payload[0] <= 2,
        _ => true,
    }
}

/// One decoded field: its tag and the bytes of its value.
#[derive(Debug)]
pub struct Field {
    pub tag: u8,
    pub payload: Vec<u8>,
}

impl View for Field {
    type V = (u8, Seq<u8>);

    open spec fn view(&self) -> (u8, Seq<u8>) {
        (self.tag, self.payload@)
    }
}

/// The fields of a sequence, each as its tag and bytes.
pub open spec fn views(fields: Seq<Field>) -> Seq<(u8, Seq<u8>)> {
    Seq::new(fields.len(), |i: int| fields[i]@)
}

/// The field of schema `shape` that starts at `pos`, with the place where
/// the next one starts; or why there is none.
pub open spec fn field_at(shape: Shape, bytes: Seq<u8>, pos: int) -> Result<
    ((u8, Seq<u8>), int),
    DecodeError,
>
    recommends
        0 <= pos <= bytes.len(),
        tag_of(shape) is Some,
{
    let tag = tag_of(shape)->Some_0;
    let width = width_of(shape) as int;
    if pos >= bytes.len() {
        Err(DecodeError::Underflow { required: 1, remaining: 0 })
    } else if bytes[pos] != tag {
        Err(DecodeError::InvalidType { expected: tag, actual: bytes[pos] })
    } else if bytes.len() - pos - 1 < width {
        Err(
            DecodeError::Underflow {
                required: width as usize,
                remaining: (bytes.len() - pos - 1) as usize,
            },
        )
    } else if !payload_ok(shape, bytes.subrange(pos + 1, pos + 1 + width)) {
        Err(DecodeError::InvalidValue(bytes[pos + 1]))
    } else {
        Ok(((tag, bytes.subrange(pos + 1, pos + 1 + width)), pos + 1 + width))
    }
}

/// The value of schema `shape` that starts at `pos`, as a field, with the
/// place where the next one starts. A value of fixed width is the field
/// that `field_at` gives; any other value is a field with the value's tag
/// and, as its bytes, everything of the value that follows the tag.
pub open spec fn value_at(shape: Shape, bytes: Seq<u8>, pos: int) -> Result<
    ((u8, Seq<u8>), int),
    DecodeError,
> {
    if tag_of(shape) is Some {
        field_at(shape, bytes, pos)
    } else {
        match walk(seq![shape], bytes, pos) {
            Err(e) => Err(e),
            Ok(end) => Ok(((bytes[pos], bytes.subrange(pos + 1, end)), end)),
        }
    }
}

/// The fields of schemas `shapes[k..]` that start at `pos` and end where
/// the bytes end; or the first reason why they do not.
pub open spec fn fields_from(shapes: Seq<Shape>, bytes: Seq<u8>, pos: int, k: int) -> Result<
    Seq<(u8, Seq<u8>)>,
    DecodeError,
>
    decreases shapes.len() - k,
{
    if k >= shapes.len() {
        if pos == bytes.len() {
            Ok(Seq::empty())
        } else {
            Err(DecodeError::NotAllBytesUsed((bytes.len() - pos) as usize))
        }
    } else {
        match value_at(shapes[k], bytes, pos) {
            Err(e) => Err(e),
            Ok(found) => match fields_from(shapes, bytes, found.1, k + 1) {
                Err(e) => Err(e),
                Ok(rest) => Ok(seq![found.0] + rest),
            },
        }
    }
}

/// What a byte string decodes to under a schema. Under a tuple of at
/// most 255 fields the bytes must hold the tuple tag, the number of fields,
/// and then exactly those fields, each a value of its schema. Under any
/// other schema the bytes must hold exactly one value of it, and that
/// value is the one field of the result.
pub open spec fn decoded(schema: Shape, bytes: Seq<u8>) -> Result<Seq<(u8, Seq<u8>)>, DecodeError> {
    match schema {
        Shape::Tuple { elements } => if elements.len() > 255 {
            Err(DecodeError::UnsupportedType)
        } else if bytes.len() < 2 {
            Err(DecodeError::Underflow { required: 2, remaining: bytes.len() as usize })
        } else if bytes[0] != TAG_TUPLE {
            Err(DecodeError::InvalidType { expected: TAG_TUPLE, actual: bytes[0] })
        } else if bytes[1] != elements.len() {
            Err(DecodeError::InvalidLength { declared: elements.len() as usize, found: bytes[1] })
        } else {
            fields_from(elements, bytes, 2, 0)
        },
        _ => fields_from(seq![schema], bytes, 0, 0),
    }
}

/// The byte form of a sequence of fields, without the tuple header.
pub open spec fn flattened(fields: Seq<(u8, Seq<u8>)>) -> Seq<u8>
    decreases fields.len(),
{
    if fields.len() == 0 {
        Seq::empty()
    } else {
        flattened(fields.drop_last()) + seq![fields.last().0] + fields.last().1
    }
}

/// The byte form of a tuple of fields.
pub open spec fn encoded(fields: Seq<(u8, Seq<u8>)>) -> Seq<u8>
    recommends
        fields.len() <= 255,
{
    seq![TAG_TUPLE, fields.len() as u8] + flattened(fields)
}

/// Whether a sequence of fields is of a sequence of schemas: as many
/// fields as schemas, each with the tag, the width and a value of its
/// schema.
pub open spec fn conforms(shapes: Seq<Shape>, fields: Seq<(u8, Seq<u8>)>) -> bool {
    &&& shapes.len() == fields.len()
    &&& forall|i: int|
        0 <= i < fields.len() ==> {
            &&& tag_of(#[trigger] shapes[i]) == Some(fields[i].0)
            &&& fields[i].1.len() == width_of(shapes[i])
            &&& payload_ok(shapes[i], fields[i].1)
        }
}

/// Fields that were read under a list of schemas are as many as the
/// schemas, and each has the tag, the width and a value of its schema.
proof fn lemma_fields_conform(shapes: Seq<Shape>, bytes: Seq<u8>, pos: int, k: int)
    requires
        0 <= k <= shapes.len(),
        0 <= pos <= bytes.len(),
        forall|i: int| 0 <= i < shapes.len() ==> tag_of(#[trigger] shapes[i]) is Some,
        fields_from(shapes, bytes, pos, k) is Ok,
    ensures
        fields_from(shapes, bytes, pos, k)->Ok_0.len() == shapes.len() - k,
        forall|i: int|
            0 <= i < shapes.len() - k ==> {
                let f = #[trigger] fields_from(shapes, bytes, pos, k)->Ok_0[i];
                &&& tag_of(shapes[k + i]) == Some(f.0)
                &&& f.1.len() == width_of(shapes[k + i])
                &&& payload_ok(shapes[k + i], f.1)
            },
    decreases shapes.len() - k,
{
    if k < shapes.len() {
        let found = field_at(shapes[k], bytes, pos)->Ok_0;
        lemma_fields_conform(shapes, bytes, found.1, k + 1);
        let rest = fields_from(shapes, bytes, found.1, k + 1)->Ok_0;
        let all = fields_from(shapes, bytes, pos, k)->Ok_0;
        assert(all == seq![found.0] + rest);
        assert forall|i: int| 0 <= i < shapes.len() - k implies {
            let f = #[trigger] all[i];
            &&& tag_of(shapes[k + i]) == Some(f.0)
            &&& f.1.len() == width_of(shapes[k + i])
            &&& payload_ok(shapes[k + i], f.1)
        } by {
            if i > 0 {
                assert(all[i] == rest[i - 1]);
            }
        }
    }
}

/// Fields that decode under a tuple of fixed-width schemas conform to
/// those schemas.
pub proof fn lemma_decoded_conforms(shapes: Seq<Shape>, bytes: Seq<u8>)
    requires
        forall|i: int| 0 <= i < shapes.len() ==> tag_of(#[trigger] shapes[i]) is Some,
        decoded(Shape::Tuple { elements: shapes }, bytes) is Ok,
    ensures
        conforms(shapes, decoded(Shape::Tuple { elements: shapes }, bytes)->Ok_0),
{
    lemma_fields_conform(shapes, bytes, 2, 0);
    let fields = fields_from(shapes, bytes, 2, 0)->Ok_0;
    assert forall|i: int| 0 <= i < fields.len() implies {
        &&& tag_of(#[trigger] shapes[i]) == Some(fields[i].0)
        &&& fields[i].1.len() == width_of(shapes[i])
        &&& payload_ok(shapes[i], fields[i].1)
    } by {
        let f = fields[i];
    }
}

/// The byte form of the fields from the `k`-th on.
pub open spec fn flattened_from(fields: Seq<(u8, Seq<u8>)>, k: int) -> Seq<u8>
    decreases fields.len() - k,
{
    if k >= fields.len() || k < 0 {
        Seq::empty()
    } else {
        seq![fields[k].0] + fields[k].1 + flattened_from(fields, k + 1)
    }
}

/// The byte form of all fields is that of the first `k` followed by that
/// of the rest.
pub proof fn lemma_flattened_split(fields: Seq<(u8, Seq<u8>)>, k: int)
    requires
        0 <= k <= fields.len(),
    ensures
        flattened(fields) == flattened(fields.subrange(0, k)) + flattened_from(fields, k),
    decreases fields.len() - k,
{
    if k == fields.len() {
        assert(fields.subrange(0, k) =~= fields);
        assert(flattened(fields) + Seq::<u8>::empty() =~= flattened(fields));
    } else {
        lemma_flattened_split(fields, k + 1);
        let next = fields.subrange(0, k + 1);
        assert(next.drop_last() =~= fields.subrange(0, k));
        assert(next.last() == fields[k]);
        assert(flattened(next) + flattened_from(fields, k + 1) =~= flattened(fields.subrange(0, k))
            + flattened_from(fields, k));
    }
}

/// Reading the byte form of conforming fields from the `k`-th on gives
/// those fields back.
pub proof fn lemma_read_back(
    shapes: Seq<Shape>,
    fields: Seq<(u8, Seq<u8>)>,
    bytes: Seq<u8>,
    pos: int,
    k: int,
)
    requires
        conforms(shapes, fields),
        0 <= k <= fields.len(),
        0 <= pos <= bytes.len(),
        bytes.subrange(pos, bytes.len() as int) == flattened_from(fields, k),
    ensures
        fields_from(shapes, bytes, pos, k) == Ok::<Seq<(u8, Seq<u8>)>, DecodeError>(
            fields.subrange(k, fields.len() as int),
        ),
    decreases fields.len() - k,
{
    let tail = bytes.subrange(pos, bytes.len() as int);
    if k == fields.len() {
        assert(tail.len() == 0);
        assert(fields.subrange(k, fields.len() as int) =~= Seq::<(u8, Seq<u8>)>::empty());
    } else {
        let width = width_of(shapes[k]) as int;
        let rest = flattened_from(fields, k + 1);
        assert(tail == seq![fields[k].0] + fields[k].1 + rest);
        assert(tail.len() == 1 + width + rest.len());
        assert(bytes[pos] == tail[0]);
        assert(bytes.subrange(pos + 1, pos + 1 + width) =~= fields[k].1) by {
            assert forall|i: int| 0 <= i < width implies bytes[pos + 1 + i] == fields[k].1[i] by {
                assert(bytes[pos + 1 + i] == tail[1 + i]);
            }
        }
        assert(bytes.subrange(pos + 1 + width, bytes.len() as int) =~= rest) by {
            assert forall|i: int| 0 <= i < rest.len() implies bytes[pos + 1 + width + i]
                == rest[i] by {
                assert(bytes[pos + 1 + width + i] == tail[1 + width + i]);
            }
        }
        lemma_read_back(shapes, fields, bytes, pos + 1 + width, k + 1);
        assert(seq![fields[k]] + fields.subrange(k + 1, fields.len() as int) =~= fields.subrange(
            k,
            fields.len() as int,
        ));
    }
}

/// Round trip: the byte form of a tuple of at most 255 conforming fields
/// decodes, under the tuple of their schemas, to those fields.
pub proof fn lemma_round_trip(shapes: Seq<Shape>, fields: Seq<(u8, Seq<u8>)>)
    requires
        conforms(shapes, fields),
        fields.len() <= 255,
    ensures
        decoded(Shape::Tuple { elements: shapes }, encoded(fields)) == Ok::<
            Seq<(u8, Seq<u8>)>,
            DecodeError,
        >(fields),
{
    let bytes = encoded(fields);
    lemma_flattened_split(fields, 0);
    assert(fields.subrange(0, 0) =~= Seq::<(u8, Seq<u8>)>::empty());
    assert(flattened(fields) =~= flattened_from(fields, 0));
    assert(bytes.subrange(2, bytes.len() as int) =~= flattened_from(fields, 0));
    lemma_read_back(shapes, fields, bytes, 2, 0);
    assert(fields.subrange(0, fields.len() as int) =~= fields);
}

/// The tag of a fixed-width schema, if it is one.
pub fn scalar_tag(ty: &Type) -> (r: Option<u8>)
    ensures
        r == tag_of(ty@),
{
    match ty {
        Type::Unit => Some(0x00u8),
        Type::Bool => Some(0x01u8),
        Type::I8 => Some(0x02u8),
        Type::I16 => Some(0x03u8),
        Type::I32 => Some(0x04u8),
        Type::I64 => Some(0x05u8),
        Type::I128 => Some(0x06u8),
        Type::U8 => Some(0x07u8),
        Type::U16 => Some(0x08u8),
        Type::U32 => Some(0x09u8),
        Type::U64 => Some(0x0au8),
        Type::U128 => Some(0x0bu8),
        Type::H256 => Some(0x80u8),
        Type::Address => Some(TAG_ADDRESS),
        Type::U256 => Some(0x82u8),
        Type::BID => Some(0x83u8),
        Type::RID => Some(0x84u8),
        _ => None,
    }
}

/// The number of bytes that follow the tag of a fixed-width field.
pub fn scalar_width(ty: &Type) -> (r: usize)
    ensures
        r == width_of(ty@),
{
    match ty {
        Type::Bool | Type::I8 | Type::U8 => 1,
        Type::I16 | Type::U16 => 2,
        Type::I32 | Type::U32 | Type::BID | Type::RID => 4,
        Type::I64 | Type::U64 => 8,
        Type::I128 | Type::U128 => 16,
        Type::Address => 17,
        Type::H256 | Type::U256 => 32,
        _ => 0,
    }
}

/// Reads the field of schema `ty` that starts at `pos`.
pub fn read_field(ty: &Type, tag: u8, bytes: &[u8], pos: usize) -> (r: Result<
    (Field, usize),
    DecodeError,
>)
    requires
        pos <= bytes@.len(),
        tag_of(ty@) == Some(tag),
    ensures
        match r {
            Ok(found) => field_at(ty@, bytes@, pos as int) == Ok::<
                ((u8, Seq<u8>), int),
                DecodeError,
            >((found.0@, found.1 as int)) && pos < found.1 <= bytes@.len(),
            Err(e) => field_at(ty@, bytes@, pos as int) == Err::<((u8, Seq<u8>), int), DecodeError>(
                e,
            ),
        },
{
    let width = scalar_width(ty);
    if pos >= bytes.len() {
        return Err(DecodeError::Underflow { required: 1, remaining: 0 });
    }
    if bytes[pos] != tag {
        return Err(DecodeError::InvalidType { expected: tag, actual: bytes[pos] });
    }
    let remaining = bytes.len() - pos - 1;
    if remaining < width {
        return Err(DecodeError::Underflow { required: width, remaining });
    }
    let payload = slice_to_vec(slice_subrange(bytes, pos + 1, pos + 1 + width));
    let valid = match ty {
        Type::Bool => payload[0] <= 1,
        Type::Address => payload[0] <= 2,
        _ => true,
    };
    if !valid {
        return Err(DecodeError::InvalidValue(bytes[pos + 1]));
    }
    Ok((Field { tag, payload }, pos + 1 + width))
}

/// Reads the value of schema `ty` that starts at `pos`, as a field.
pub fn read_value(ty: &Type, bytes: &[u8], pos: usize) -> (r: Result<(Field, usize), DecodeError>)
    requires
        pos <= bytes@.len(),
    ensures
        match r {
            Ok(found) => value_at(ty@, bytes@, pos as int) == Ok::<
                ((u8, Seq<u8>), int),
                DecodeError,
            >((found.0@, found.1 as int)) && pos < found.1 <= bytes@.len(),
            Err(e) => value_at(ty@, bytes@, pos as int) == Err::<((u8, Seq<u8>), int), DecodeError>(
                e,
            ),
        },
{
    match scalar_tag(ty) {
        Some(tag) => read_field(ty, tag, bytes, pos),
        None => match end_of_value(ty, bytes, pos) {
            Err(e) => Err(e),
            Ok(end) => {
                let payload = slice_to_vec(slice_subrange(bytes, pos + 1, end));
                Ok((Field { tag: bytes[pos], payload }, end))
            },
        },
    }
}

/// Decodes a byte string that holds exactly one field of a schema.
fn decode_single(schema: &Type, bytes: &[u8]) -> (r: Result<Vec<Field>, DecodeError>)
    ensures
        match r {
            Ok(fields) => fields_from(seq![schema@], bytes@, 0, 0) == Ok::<
                Seq<(u8, Seq<u8>)>,
                DecodeError,
            >(views(fields@)),
            Err(e) => fields_from(seq![schema@], bytes@, 0, 0) == Err::<
                Seq<(u8, Seq<u8>)>,
                DecodeError,
            >(e),
        },
{
    let ghost shapes = seq![schema@];
    assert(shapes[0] == schema@);
    match read_value(schema, bytes, 0) {
        Err(e) => Err(e),
        Ok(found) => {
            let ghost f = found.0@;
            assert(fields_from(shapes, bytes@, found.1 as int, 1) == (if found.1 == bytes@.len() {
                Ok::<Seq<(u8, Seq<u8>)>, DecodeError>(Seq::empty())
            } else {
                Err::<Seq<(u8, Seq<u8>)>, DecodeError>(
                    DecodeError::NotAllBytesUsed((bytes@.len() - found.1) as usize),
                )
            }));
            if found.1 != bytes.len() {
                return Err(DecodeError::NotAllBytesUsed(bytes.len() - found.1));
            }
            let mut fields: Vec<Field> = Vec::new();
            fields.push(found.0);
            assert(views(fields@) =~= seq![f] + Seq::<(u8, Seq<u8>)>::empty());
            Ok(fields)
        },
    }
}

/// Decodes a byte string under a schema.
///
/// A schema that holds a custom schema, or a tuple of more than 255
/// fields, gives `UnsupportedType` where the bytes reach it. The bytes must hold the tuple, nothing
/// less and nothing more: a truncated input gives `Underflow`, a wrong
/// tag `InvalidType`, a wrong count `InvalidLength`, a byte that is no
/// value of its type `InvalidValue`, and trailing bytes `NotAllBytesUsed`.
pub fn decode(schema: &Type, bytes: &[u8]) -> (r: Result<Vec<Field>, DecodeError>)
    ensures
        match r {
            Ok(fields) => decoded(schema@, bytes@) == Ok::<Seq<(u8, Seq<u8>)>, DecodeError>(
                views(fields@),
            ),
            Err(e) => decoded(schema@, bytes@) == Err::<Seq<(u8, Seq<u8>)>, DecodeError>(e),
        },
{
    let elements = match schema {
        Type::Tuple { elements } => elements,
        _ => { return decode_single(schema, bytes); },
    };
    let ghost shapes = schema@->Tuple_elements;
    assert(shapes.len() == elements@.len());
    if elements.len() > 255 {
        return Err(DecodeError::UnsupportedType);
    }
    if bytes.len() < 2 {
        return Err(DecodeError::Underflow { required: 2, remaining: bytes.len() });
    }
    if bytes[0] != TAG_TUPLE {
        return Err(DecodeError::InvalidType { expected: TAG_TUPLE, actual: bytes[0] });
    }
    if bytes[1] as usize != elements.len() {
        return Err(DecodeError::InvalidLength { declared: elements.len(), found: bytes[1] });
    }
    let mut fields: Vec<Field> = Vec::new();
    let mut pos: usize = 2;
    let mut k: usize = 0;
    while k < elements.len()
        invariant
            k <= elements.len(),
            2 <= pos <= bytes@.len(),
            shapes.len() == elements@.len(),
            forall|i: int| 0 <= i < elements@.len() ==> shapes[i] == (#[trigger] elements@[i])@,
            decoded(schema@, bytes@) == fields_from(shapes, bytes@, 2, 0),
            fields_from(shapes, bytes@, 2, 0) == (match fields_from(
                shapes,
                bytes@,
                pos as int,
                k as int,
            ) {
                Ok(rest) => Ok::<Seq<(u8, Seq<u8>)>, DecodeError>(views(fields@) + rest),
                Err(e) => Err::<Seq<(u8, Seq<u8>)>, DecodeError>(e),
            }),
        decreases elements.len() - k,
    {
        let ty = &elements[k];
        assert(shapes[k as int] == ty@);
        match read_value(ty, bytes, pos) {
            Err(e) => { return Err(e); },
            Ok(found) => {
                let ghost before = views(fields@);
                let ghost f = found.0@;
                fields.push(found.0);
                proof {
                    assert(views(fields@) =~= before + seq![f]);
                    match fields_from(shapes, bytes@, found.1 as int, k + 1) {
                        Ok(rest) => {
                            assert(before + (seq![f] + rest) =~= (before + seq![f]) + rest);
                        },
                        Err(_) => {},
                    }
                }
                pos = found.1;
                k = k + 1;
            },
        }
    }
    if pos != bytes.len() {
        return Err(DecodeError::NotAllBytesUsed(bytes.len() - pos));
    }
    proof {
        assert(views(fields@) + Seq::<(u8, Seq<u8>)>::empty() =~= views(fields@));
    }
    Ok(fields)
}

/// Encodes a tuple of fields.
pub fn encode(fields: &Vec<Field>) -> (bytes: Vec<u8>)
    requires
        fields@.len() <= 255,
    ensures
        bytes@ == encoded(views(fields@)),
{
    let mut bytes: Vec<u8> = Vec::new();
    bytes.push(TAG_TUPLE);
    bytes.push(fields.len() as u8);
    let ghost all = views(fields@);
    let mut k: usize = 0;
    assert(all.subrange(0, 0) =~= Seq::<(u8, Seq<u8>)>::empty());
    assert(bytes@ =~= seq![TAG_TUPLE, fields@.len() as u8] + flattened(all.subrange(0, 0)));
    while k < fields.len()
        invariant
            k <= fields.len(),
            all == views(fields@),
            bytes@ == seq![TAG_TUPLE, fields@.len() as u8] + flattened(all.subrange(0, k as int)),
        decreases fields.len() - k,
    {
        let ghost before = bytes@;
        bytes.push(fields[k].tag);
        let payload = &fields[k].payload;
        let mut i: usize = 0;
        while i < payload.len()
            invariant
                i <= payload.len(),
                bytes@ == before + seq![fields@[k as int].tag] + payload@.subrange(0, i as int),
            decreases payload.len() - i,
        {
            let ghost prior = bytes@;
            bytes.push(payload[i]);
            assert(payload@.subrange(0, i + 1) =~= payload@.subrange(0, i as int).push(
                payload@[i as int],
            ));
            assert(bytes@ =~= before + seq![fields@[k as int].tag] + payload@.subrange(0, i + 1));
            i = i + 1;
        }
        proof {
            assert(payload@.subrange(0, i as int) =~= payload@);
            let next = all.subrange(0, k + 1);
            assert(next.drop_last() =~= all.subrange(0, k as int));
            assert(next.last() == all[k as int]);
            assert(flattened(next) == flattened(all.subrange(0, k as int)) + seq![all[k as int].0]
                + all[k as int].1);
            assert(bytes@ =~= seq![TAG_TUPLE, fields@.len() as u8] + flattened(next));
        }
        k = k + 1;
    }
    assert(all.subrange(0, k as int) =~= all);
    bytes
}

} // verus!
