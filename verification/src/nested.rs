//! Where an encoded value of any schema ends: the walk over nested values
//! that the decoder uses for fields that are not of fixed width.

use crate::codec::{payload_ok, scalar_tag, scalar_width, tag_of, width_of};
use crate::describe::{Shape, Type};
use crate::error::DecodeError;
use vstd::bytes::{spec_u32_from_le_bytes, u32_from_le_bytes};
use vstd::prelude::*;
use vstd::slice::slice_subrange;

verus! {

/// The tag that opens a value of a schema; none for a custom schema, whose
/// form is not known here.
pub open spec fn opening_tag(shape: Shape) -> Option<u8> {
    match shape {
        Shape::String => Some(0x0cu8),
        Shape::Option { .. } => Some(0x20u8),
        Shape::Box { .. } => Some(0x21u8),
        Shape::Array { .. } => Some(0x22u8),
        Shape::Tuple { .. } => Some(0x23u8),
        Shape::Vec { .. } => Some(0x30u8),
        Shape::TreeSet { .. } => Some(0x31u8),
        Shape::TreeMap { .. } => Some(0x32u8),
        Shape::HashSet { .. } => Some(0x33u8),
        Shape::HashMap { .. } => Some(0x34u8),
        Shape::Custom { .. } => None,
        _ => tag_of(shape),
    }
}

/// The count that the four bytes from `pos` on hold, lowest byte first.
pub open spec fn count_at(bytes: Seq<u8>, pos: int) -> int {
    spec_u32_from_le_bytes(bytes.subrange(pos, pos + 4)) as int
}

/// The schemas of `n` items: `element` each time, or, where `per_item` is
/// 2, `other` and `element` in turn.
pub open spec fn items_of(element: Shape, other: Shape, per_item: int, n: int) -> Seq<Shape> {
    Seq::new(
        n as nat,
        |i: int|
            if per_item == 2 && i % 2 == 0 {
                other
            } else {
                element
            },
    )
}

/// What follows the count of a list: `count` values of `element`, where at
/// least one byte is left for each.
pub open spec fn listed(element: Shape, per_item: int, bytes: Seq<u8>, pos: int, other: Shape)
    -> Result<(Seq<Shape>, int), DecodeError> {
    let left = bytes.len() - pos - 1;
    if left < 4 {
        Err(DecodeError::Underflow { required: 4, remaining: left as usize })
    } else if left - 4 < per_item * count_at(bytes, pos + 1) {
        Err(
            DecodeError::Underflow {
                required: (left - 3) as usize,
                remaining: (left - 4) as usize,
            },
        )
    } else {
        Ok((items_of(element, other, per_item, per_item * count_at(bytes, pos + 1)), pos + 5))
    }
}

/// One step of the walk: given the schema of the value whose tag stands
/// at `pos`, the schemas of the values that follow inside it (the one to be
/// read first last), and the place where they start; or why the value is
/// malformed.
pub open spec fn step(shape: Shape, bytes: Seq<u8>, pos: int) -> Result<
    (Seq<Shape>, int),
    DecodeError,
> {
    let left = bytes.len() - pos - 1;
    match shape {
        Shape::String => if left < 4 {
            Err(DecodeError::Underflow { required: 4, remaining: left as usize })
        } else if left - 4 < count_at(bytes, pos + 1) {
            Err(
                DecodeError::Underflow {
                    required: count_at(bytes, pos + 1) as usize,
                    remaining: (left - 4) as usize,
                },
            )
        } else {
            Ok((Seq::empty(), pos + 5 + count_at(bytes, pos + 1)))
        },
        Shape::Option { value } => if left < 1 {
            Err(DecodeError::Underflow { required: 1, remaining: 0 })
        } else if bytes[pos + 1] == 0 {
            Ok((Seq::empty(), pos + 2))
        } else if bytes[pos + 1] == 1 {
            Ok((seq![*value], pos + 2))
        } else {
            Err(DecodeError::InvalidValue(bytes[pos + 1]))
        },
        Shape::Box { value } => Ok((seq![*value], pos + 1)),
        Shape::Array { element, length } => Ok(
            (items_of(*element, *element, 1, length as int), pos + 1),
        ),
        Shape::Tuple { elements } => if elements.len() > 255 {
            Err(DecodeError::UnsupportedType)
        } else if left < 1 {
            Err(DecodeError::Underflow { required: 1, remaining: 0 })
        } else if bytes[pos + 1] != elements.len() {
            Err(DecodeError::InvalidLength { declared: elements.len() as usize, found: bytes[pos + 1] })
        } else {
            Ok((Seq::new(elements.len(), |i: int| elements[elements.len() - 1 - i]), pos + 2))
        },
        Shape::Vec { element } => listed(*element, 1, bytes, pos, *element),
        Shape::TreeSet { element } => listed(*element, 1, bytes, pos, *element),
        Shape::HashSet { element } => listed(*element, 1, bytes, pos, *element),
        Shape::TreeMap { key, value } => listed(*key, 2, bytes, pos, *value),
        Shape::HashMap { key, value } => listed(*key, 2, bytes, pos, *value),
        _ => if left < width_of(shape) {
            Err(
                DecodeError::Underflow {
                    required: width_of(shape) as usize,
                    remaining: left as usize,
                },
            )
        } else if !payload_ok(shape, bytes.subrange(pos + 1, pos + 1 + width_of(shape))) {
            Err(DecodeError::InvalidValue(bytes[pos + 1]))
        } else {
            Ok((Seq::empty(), pos + 1 + width_of(shape)))
        },
    }
}

/// Every step moves on by at least the tag, so the walk never stands
/// still.
pub proof fn lemma_step_advances(shape: Shape, bytes: Seq<u8>, pos: int)
    requires
        step(shape, bytes, pos) is Ok,
    ensures
        step(shape, bytes, pos)->Ok_0.1 > pos,
{
}

/// Where the values of the schemas `tasks`, the last one first, end when
/// they are read one after the other from `pos` on; or the first reason
/// why they cannot be read.
pub open spec fn walk(tasks: Seq<Shape>, bytes: Seq<u8>, pos: int) -> Result<int, DecodeError>
    decreases bytes.len() - pos,
{
    if tasks.len() == 0 {
        Ok(pos)
    } else if pos < 0 || pos >= bytes.len() {
        Err(DecodeError::Underflow { required: 1, remaining: 0 })
    } else if opening_tag(tasks.last()) is None {
        Err(DecodeError::UnsupportedType)
    } else if bytes[pos] != opening_tag(tasks.last())->Some_0 {
        Err(
            DecodeError::InvalidType {
                expected: opening_tag(tasks.last())->Some_0,
                actual: bytes[pos],
            },
        )
    } else {
        match step(tasks.last(), bytes, pos) {
            Err(e) => Err(e),
            Ok(next) => if next.1 > pos {
                walk(tasks.drop_last() + next.0, bytes, next.1)
            } else {
                Err(DecodeError::UnsupportedType)
            },
        }
    }
}

/// The schemas of a stack of types.
pub open spec fn shapes_of(stack: Seq<&Type>) -> Seq<Shape> {
    Seq::new(stack.len(), |i: int| stack[i]@)
}

/// The tag that opens a value of a schema.
pub fn opening(ty: &Type) -> (r: Option<u8>)
    ensures
        r == opening_tag(ty@),
{
    match ty {
        Type::String => Some(0x0cu8),
        Type::Option { .. } => Some(0x20u8),
        Type::Box { .. } => Some(0x21u8),
        Type::Array { .. } => Some(0x22u8),
        Type::Tuple { .. } => Some(0x23u8),
        Type::Vec { .. } => Some(0x30u8),
        Type::TreeSet { .. } => Some(0x31u8),
        Type::TreeMap { .. } => Some(0x32u8),
        Type::HashSet { .. } => Some(0x33u8),
        Type::HashMap { .. } => Some(0x34u8),
        Type::Custom { .. } => None,
        _ => scalar_tag(ty),
    }
}

/// Puts `n` schemas on the stack: `element` each time, or, where
/// `per_item` is 2, `other` and `element` in turn.
fn push_items<'a>(
    stack: &mut Vec<&'a Type>,
    element: &'a Type,
    other: &'a Type,
    per_item: usize,
    n: usize,
)
    ensures
        shapes_of(final(stack)@) == shapes_of(old(stack)@) + items_of(
            element@,
            other@,
            per_item as int,
            n as int,
        ),
{
    let ghost before = shapes_of(stack@);
    let mut i: usize = 0;
    assert(shapes_of(stack@) =~= before + items_of(element@, other@, per_item as int, 0));
    while i < n
        invariant
            i <= n,
            shapes_of(stack@) == before + items_of(element@, other@, per_item as int, i as int),
        decreases n - i,
    {
        let ghost prior = stack@;
        if per_item == 2 && i % 2 == 0 {
            stack.push(other);
        } else {
            stack.push(element);
        }
        assert(stack@.len() == prior.len() + 1);
        assert(forall|k: int| 0 <= k < prior.len() ==> stack@[k] == prior[k]);
        assert(shapes_of(stack@) =~= shapes_of(prior).push(stack@[prior.len() as int]@));
        assert(shapes_of(prior).push(stack@[prior.len() as int]@) =~= before + items_of(
            element@,
            other@,
            per_item as int,
            i + 1,
        ));
        i = i + 1;
    }
}

/// Reads the count of a list and puts the schemas of its items on the
/// stack.
fn push_listed<'a>(
    stack: &mut Vec<&'a Type>,
    element: &'a Type,
    other: &'a Type,
    per_item: usize,
    bytes: &[u8],
    pos: usize,
) -> (r: Result<usize, DecodeError>)
    requires
        pos < bytes@.len(),
        per_item == 1 || per_item == 2,
    ensures
        match r {
            Ok(next) => listed(element@, per_item as int, bytes@, pos as int, other@) is Ok
                && shapes_of(final(stack)@) == shapes_of(old(stack)@) + listed(
                element@,
                per_item as int,
                bytes@,
                pos as int,
                other@,
            )->Ok_0.0 && next == pos + 5 && next <= bytes@.len(),
            Err(e) => listed(element@, per_item as int, bytes@, pos as int, other@) == Err::<
                (Seq<Shape>, int),
                DecodeError,
            >(e) && final(stack)@ == old(stack)@,
        },
{
    let left = bytes.len() - pos - 1;
    if left < 4 {
        return Err(DecodeError::Underflow { required: 4, remaining: left });
    }
    let count = u32_from_le_bytes(slice_subrange(bytes, pos + 1, pos + 5));
    let need: u64 = if per_item == 2 {
        (count as u64) + (count as u64)
    } else {
        count as u64
    };
    assert(need == per_item * count_at(bytes@, pos + 1));
    if ((left - 4) as u64) < need {
        return Err(DecodeError::Underflow { required: left - 3, remaining: left - 4 });
    }
    push_items(stack, element, other, per_item, need as usize);
    Ok(pos + 5)
}

/// Where the value of a schema that starts at `start` ends.
///
/// Fails where the bytes end before the value does (`Underflow`), a tag or
/// a count is not the schema's (`InvalidType`, `InvalidLength`), a byte is
/// no value of its type (`InvalidValue`), or the schema holds a custom
/// schema (`UnsupportedType`).
pub fn end_of_value<'a>(ty: &'a Type, bytes: &[u8], start: usize) -> (r: Result<
    usize,
    DecodeError,
>)
    requires
        start <= bytes@.len(),
    ensures
        match r {
            Ok(end) => walk(seq![ty@], bytes@, start as int) == Ok::<int, DecodeError>(end as int)
                && start < end <= bytes@.len(),
            Err(e) => walk(seq![ty@], bytes@, start as int) == Err::<int, DecodeError>(e),
        },
{
    let mut stack: Vec<&'a Type> = Vec::new();
    stack.push(ty);
    let mut pos: usize = start;
    assert(shapes_of(stack@) =~= seq![ty@]);
    while stack.len() > 0
        invariant
            start <= pos <= bytes@.len(),
            stack@.len() == 0 ==> pos > start,
            walk(seq![ty@], bytes@, start as int) == walk(shapes_of(stack@), bytes@, pos as int),
        decreases bytes@.len() - pos,
    {
        let ghost tasks = shapes_of(stack@);
        let top = stack.pop().unwrap();
        assert(top@ == tasks.last());
        assert(shapes_of(stack@) =~= tasks.drop_last());
        let ghost rest = shapes_of(stack@);
        if pos >= bytes.len() {
            return Err(DecodeError::Underflow { required: 1, remaining: 0 });
        }
        let tag = match opening(top) {
            None => { return Err(DecodeError::UnsupportedType); },
            Some(tag) => tag,
        };
        if bytes[pos] != tag {
            return Err(DecodeError::InvalidType { expected: tag, actual: bytes[pos] });
        }
        let left = bytes.len() - pos - 1;
        match top {
            Type::String => {
                if left < 4 {
                    return Err(DecodeError::Underflow { required: 4, remaining: left });
                }
                let count = u32_from_le_bytes(slice_subrange(bytes, pos + 1, pos + 5)) as usize;
                if left - 4 < count {
                    return Err(DecodeError::Underflow { required: count, remaining: left - 4 });
                }
                assert(rest + Seq::<Shape>::empty() =~= rest);
                pos = pos + 5 + count;
            },
            Type::Option { value } => {
                if left < 1 {
                    return Err(DecodeError::Underflow { required: 1, remaining: 0 });
                }
                if bytes[pos + 1] == 0 {
                    assert(rest + Seq::<Shape>::empty() =~= rest);
                } else if bytes[pos + 1] == 1 {
                    stack.push(&**value);
                    assert(shapes_of(stack@) =~= rest + seq![(**value)@]);
                } else {
                    return Err(DecodeError::InvalidValue(bytes[pos + 1]));
                }
                pos = pos + 2;
            },
            Type::Box { value } => {
                stack.push(&**value);
                assert(shapes_of(stack@) =~= rest + seq![(**value)@]);
                pos = pos + 1;
            },
            Type::Array { element, length } => {
                push_items(&mut stack, &**element, &**element, 1, *length as usize);
                pos = pos + 1;
            },
            Type::Tuple { elements } => {
                if elements.len() > 255 {
                    return Err(DecodeError::UnsupportedType);
                }
                if left < 1 {
                    return Err(DecodeError::Underflow { required: 1, remaining: 0 });
                }
                if bytes[pos + 1] as usize != elements.len() {
                    return Err(
                        DecodeError::InvalidLength {
                            declared: elements.len(),
                            found: bytes[pos + 1],
                        },
                    );
                }
                let ghost shapes = top@->Tuple_elements;
                assert(shapes.len() == elements@.len());
                let mut i: usize = elements.len();
                assert(shapes_of(stack@) =~= rest + Seq::new(
                    0nat,
                    |j: int| shapes[shapes.len() - 1 - j],
                ));
                while i > 0
                    invariant
                        i <= elements.len(),
                        shapes.len() == elements@.len(),
                        forall|x: int| 0 <= x < elements@.len() ==> shapes[x] == (
                        #[trigger] elements@[x])@,
                        shapes_of(stack@) == rest + Seq::new(
                            (elements.len() - i) as nat,
                            |j: int| shapes[shapes.len() - 1 - j],
                        ),
                    decreases i,
                {
                    let ghost prior = stack@;
                    i = i - 1;
                    stack.push(&elements[i]);
                    assert(forall|k: int| 0 <= k < prior.len() ==> stack@[k] == prior[k]);
                    assert(shapes_of(stack@) =~= shapes_of(prior).push(elements@[i as int]@));
                    assert(shapes_of(prior).push(elements@[i as int]@) =~= rest + Seq::new(
                        (elements.len() - i) as nat,
                        |j: int| shapes[shapes.len() - 1 - j],
                    ));
                }
                assert(Seq::new(
                    elements.len() as nat,
                    |j: int| shapes[shapes.len() - 1 - j],
                ) =~= step(top@, bytes@, pos as int)->Ok_0.0);
                pos = pos + 2;
            },
            Type::Vec { element } => {
                match push_listed(&mut stack, &**element, &**element, 1, bytes, pos) {
                    Err(e) => { return Err(e); },
                    Ok(next) => { pos = next; },
                }
            },
            Type::TreeSet { element } => {
                match push_listed(&mut stack, &**element, &**element, 1, bytes, pos) {
                    Err(e) => { return Err(e); },
                    Ok(next) => { pos = next; },
                }
            },
            Type::HashSet { element } => {
                match push_listed(&mut stack, &**element, &**element, 1, bytes, pos) {
                    Err(e) => { return Err(e); },
                    Ok(next) => { pos = next; },
                }
            },
            Type::TreeMap { key, value } => {
                match push_listed(&mut stack, &**key, &**value, 2, bytes, pos) {
                    Err(e) => { return Err(e); },
                    Ok(next) => { pos = next; },
                }
            },
            Type::HashMap { key, value } => {
                match push_listed(&mut stack, &**key, &**value, 2, bytes, pos) {
                    Err(e) => { return Err(e); },
                    Ok(next) => { pos = next; },
                }
            },
            _ => {
                let width = scalar_width(top);
                if left < width {
                    return Err(DecodeError::Underflow { required: width, remaining: left });
                }
                let valid = match top {
                    Type::Bool => bytes[pos + 1] <= 1,
                    Type::Address => bytes[pos + 1] <= 2,
                    _ => true,
                };
                if !valid {
                    return Err(DecodeError::InvalidValue(bytes[pos + 1]));
                }
                assert(rest + Seq::<Shape>::empty() =~= rest);
                pos = pos + 1 + width;
            },
        }
    }
    Ok(pos)
}

} // verus!
